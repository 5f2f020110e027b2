//! Properties of the gesture machine over several samples.
use vstd::prelude::*;
use crate::angle::{is_canonical, shortest_delta};
use crate::gesture::{
    GestureConfig, GestureState, idle, remainder, tick_count, tick_value, ticks_for,
};

verus! {

/// The state after a run of in-rim samples at the angles `thetas`.
pub open spec fn run(s: GestureState, cfg: GestureConfig, thetas: Seq<i64>) -> GestureState
    decreases thetas.len(),
{
    if thetas.len() == 0 {
        s
    } else {
        run(s, cfg, thetas.drop_last()).next(cfg, true, thetas.last())
    }
}

/// Every tick a run of in-rim samples emits, in order.
pub open spec fn run_ticks(s: GestureState, cfg: GestureConfig, thetas: Seq<i64>) -> Seq<i32>
    decreases thetas.len(),
{
    if thetas.len() == 0 {
        Seq::empty()
    } else {
        run_ticks(s, cfg, thetas.drop_last()) + run(s, cfg, thetas.drop_last()).emitted(
            cfg,
            true,
            thetas.last(),
        )
    }
}

/// Total unwrapped arc from the first angle to the last, each turn taken the
/// shorter way round.
pub open spec fn travel(thetas: Seq<i64>) -> int
    decreases thetas.len(),
{
    if thetas.len() <= 1 {
        0
    } else {
        travel(thetas.drop_last()) + shortest_delta(
            thetas[thetas.len() - 2] as int,
            thetas.last() as int,
        )
    }
}

/// Sum of tick values: net scroll, down counted positive.
pub open spec fn tick_sum(ticks: Seq<i32>) -> int
    decreases ticks.len(),
{
    if ticks.len() == 0 {
        0
    } else {
        tick_sum(ticks.drop_last()) + ticks.last()
    }
}

/// Every angle of the sequence is canonical.
pub open spec fn all_canonical(thetas: Seq<i64>) -> bool {
    forall|i: int| 0 <= i < thetas.len() ==> is_canonical(#[trigger] thetas[i] as int)
}

/// Emitting leaves less than one step, with the sign of the accumulator kept.
pub proof fn lemma_remainder_bounds(acc: int, step: int)
    requires
        step > 0,
    ensures
        -step < remainder(acc, step) < step,
        acc > 0 ==> remainder(acc, step) >= 0,
        acc <= 0 ==> remainder(acc, step) <= 0,
        acc == remainder(acc, step) + (if acc > 0 { 1int } else { -1int }) * tick_count(
            acc,
            step,
        ) * step,
{
    let m = if acc >= 0 { acc } else { -acc };
    vstd::arithmetic::div_mod::lemma_fundamental_div_mod(m, step);
    vstd::arithmetic::div_mod::lemma_mod_pos_bound(m, step);
    assert(m == step * (m / step) + m % step);
    assert(tick_count(acc, step) * step == step * (m / step)) by (nonlinear_arith)
        requires
            tick_count(acc, step) == m / step,
    ;
    let tc = tick_count(acc, step) as int;
    assert(1int * tc * step == tc * step && -1int * tc * step == -(tc * step)) by (nonlinear_arith);
}

/// Less than one step accumulated emits nothing and stays as it is.
pub proof fn lemma_settled_emits_nothing(acc: int, step: int)
    requires
        -step < acc < step,
    ensures
        tick_count(acc, step) == 0,
        remainder(acc, step) == acc,
{
    let m = if acc >= 0 { acc } else { -acc };
    vstd::arithmetic::div_mod::lemma_basic_div(m, step);
}

/// A sum of ticks splits over concatenation.
pub proof fn lemma_tick_sum_concat(a: Seq<i32>, b: Seq<i32>)
    ensures
        tick_sum(a + b) == tick_sum(a) + tick_sum(b),
    decreases b.len(),
{
    if b.len() == 0 {
        assert(a + b =~= a);
    } else {
        lemma_tick_sum_concat(a, b.drop_last());
        assert((a + b).drop_last() =~= a + b.drop_last());
    }
}

/// `n` ticks of one value sum to `n` times that value.
pub proof fn lemma_tick_sum_uniform(n: nat, v: i32)
    ensures
        tick_sum(Seq::new(n, |_i: int| v)) == n * v,
    decreases n,
{
    let q = Seq::new(n, |_i: int| v);
    if n > 0 {
        lemma_tick_sum_uniform((n - 1) as nat, v);
        let r = Seq::new((n - 1) as nat, |_i: int| v);
        assert(q.drop_last() =~= r);
        assert(q.last() == v);
        assert(tick_sum(q) == tick_sum(r) + v);
        assert(n * v == (n - 1) * v + v) by (nonlinear_arith);
    } else {
        assert(tick_sum(q) == 0);
    }
}

/// A finger that stays on the rim without moving changes nothing: the
/// accumulated arc is kept and no tick is emitted.
pub proof fn lemma_still_finger_emits_nothing(
    s: GestureState,
    cfg: GestureConfig,
    theta: i64,
)
    requires
        s.wf(),
        cfg.wf(),
        s.settled(cfg),
        s.last_theta == Some(theta),
    ensures
        s.next(cfg, true, theta) == s,
        s.emitted(cfg, true, theta).len() == 0,
{
    lemma_settled_emits_nothing(s.theta_acc as int, cfg.angle_step as int);
}

/// A sample outside the rim clears the accumulated arc and the tracked angle,
/// whatever came before, and the next in-rim sample starts a fresh sequence
/// that emits no tick.
pub proof fn lemma_rim_exit_resets(
    s: GestureState,
    cfg: GestureConfig,
    theta_out: i64,
    theta_in: i64,
)
    ensures
        s.next(cfg, false, theta_out) == idle(),
        s.emitted(cfg, false, theta_out).len() == 0,
        idle().next(cfg, true, theta_in) == (GestureState {
            last_theta: Some(theta_in),
            theta_acc: 0,
        }),
        idle().emitted(cfg, true, theta_in).len() == 0,
{
}

/// Setting `invert` changes no state and turns every tick the other way:
/// the same angular input scrolls up where it scrolled down, and down where
/// it scrolled up.
pub proof fn lemma_invert_swaps_direction(
    s: GestureState,
    cfg: GestureConfig,
    inside: bool,
    theta: i64,
)
    ensures
        ({
            let flipped = GestureConfig { invert: !cfg.invert, ..cfg };
            &&& s.next(flipped, inside, theta) == s.next(cfg, inside, theta)
            &&& s.emitted(flipped, inside, theta).len() == s.emitted(cfg, inside, theta).len()
            &&& forall|i: int|
                0 <= i < s.emitted(cfg, inside, theta).len() ==> #[trigger] s.emitted(
                    flipped,
                    inside,
                    theta,
                )[i] == -s.emitted(cfg, inside, theta)[i]
        }),
{
}

/// Ticks conserve the arc: over any run of in-rim samples from the idle state,
/// the net scroll times the step, plus what is left in the accumulator, equals
/// the unwrapped arc travelled. Down counts positive, or negative when
/// `invert` is set; less than one step is ever left over.
pub proof fn lemma_ticks_conserve_travel(cfg: GestureConfig, thetas: Seq<i64>)
    requires
        cfg.wf(),
        all_canonical(thetas),
    ensures
        (if cfg.invert { -1int } else { 1int }) * tick_sum(run_ticks(idle(), cfg, thetas))
            * cfg.angle_step + run(idle(), cfg, thetas).theta_acc == travel(thetas),
        run(idle(), cfg, thetas).settled(cfg),
        run(idle(), cfg, thetas).wf(),
        thetas.len() > 0 ==> run(idle(), cfg, thetas).last_theta == Some(thetas.last()),
    decreases thetas.len(),
{
    let step = cfg.angle_step as int;
    let sign: int = if cfg.invert { -1 } else { 1 };
    if thetas.len() == 0 {
        return;
    }
    let init = thetas.drop_last();
    assert forall|i: int| 0 <= i < init.len() implies is_canonical(#[trigger] init[i] as int) by {
        assert(init[i] == thetas[i]);
    }
    lemma_ticks_conserve_travel(cfg, init);
    let prev = run(idle(), cfg, init);
    let theta = thetas.last();
    assert(is_canonical(thetas[thetas.len() - 1] as int));
    if init.len() == 0 {
        assert(prev == idle());
        assert(run_ticks(idle(), cfg, thetas) =~= Seq::<i32>::empty());
        assert(tick_sum(Seq::<i32>::empty()) == 0);
        assert(sign * 0 * step == 0) by (nonlinear_arith);
    } else {
        let p = prev.last_theta->Some_0;
        assert(p == thetas[thetas.len() - 2]);
        let acc = prev.accumulated(theta as int);
        let n = tick_count(acc, step);
        let v = tick_value(acc > 0, cfg.invert);
        lemma_remainder_bounds(acc, step);
        let new_ticks = ticks_for(acc, step, cfg.invert);
        assert(new_ticks =~= Seq::new(n, |_i: int| v));
        lemma_tick_sum_uniform(n, v);
        lemma_tick_sum_concat(run_ticks(idle(), cfg, init), new_ticks);
        let before = tick_sum(run_ticks(idle(), cfg, init));
        let dir: int = if acc > 0 { 1 } else { -1 };
        assert(sign * v == dir);
        assert(sign * (before + n * v) * step == sign * before * step + dir * n * step)
            by (nonlinear_arith)
            requires
                sign * v == dir,
        ;
        assert(-0x1_0000_0000 < remainder(acc, step) < 0x1_0000_0000);
    }
}

/// Every turn of the sequence goes one way: clockwise (non-negative) when
/// `cw` holds, counter-clockwise (non-positive) otherwise.
pub open spec fn turns_one_way(thetas: Seq<i64>, cw: bool) -> bool {
    forall|i: int|
        1 <= i < thetas.len() ==> {
            let d = #[trigger] shortest_delta(thetas[i - 1] as int, thetas[i] as int);
            if cw {
                d >= 0
            } else {
                d <= 0
            }
        }
}

/// Where the finger turns one way only, from the idle state, the number of
/// ticks is the whole number of steps in the arc travelled, and each tick
/// scrolls the way of the turn: down for clockwise, up otherwise, swapped by
/// `invert`.
pub proof fn lemma_one_way_tick_count(cfg: GestureConfig, thetas: Seq<i64>, cw: bool)
    requires
        cfg.wf(),
        all_canonical(thetas),
        turns_one_way(thetas, cw),
    ensures
        run_ticks(idle(), cfg, thetas).len() == (if cw {
            travel(thetas)
        } else {
            -travel(thetas)
        }) / (cfg.angle_step as int),
        forall|i: int|
            0 <= i < run_ticks(idle(), cfg, thetas).len() ==> #[trigger] run_ticks(
                idle(),
                cfg,
                thetas,
            )[i] == tick_value(cw, cfg.invert),
{
    let step = cfg.angle_step as int;
    lemma_one_way_invariant(cfg, thetas, cw);
    let m = if cw { travel(thetas) } else { -travel(thetas) };
    let acc = run(idle(), cfg, thetas).theta_acc as int;
    let r = if cw { acc } else { -acc };
    vstd::arithmetic::div_mod::lemma_fundamental_div_mod_converse(
        m,
        step,
        run_ticks(idle(), cfg, thetas).len() as int,
        r,
    );
}

proof fn lemma_one_way_invariant(cfg: GestureConfig, thetas: Seq<i64>, cw: bool)
    requires
        cfg.wf(),
        all_canonical(thetas),
        turns_one_way(thetas, cw),
    ensures
        cw ==> 0 <= run(idle(), cfg, thetas).theta_acc,
        !cw ==> run(idle(), cfg, thetas).theta_acc <= 0,
        run(idle(), cfg, thetas).settled(cfg),
        run(idle(), cfg, thetas).wf(),
        thetas.len() > 0 ==> run(idle(), cfg, thetas).last_theta == Some(thetas.last()),
        run_ticks(idle(), cfg, thetas).len() * cfg.angle_step + (if cw {
            run(idle(), cfg, thetas).theta_acc as int
        } else {
            -run(idle(), cfg, thetas).theta_acc
        }) == (if cw {
            travel(thetas)
        } else {
            -travel(thetas)
        }),
        forall|i: int|
            0 <= i < run_ticks(idle(), cfg, thetas).len() ==> #[trigger] run_ticks(
                idle(),
                cfg,
                thetas,
            )[i] == tick_value(cw, cfg.invert),
    decreases thetas.len(),
{
    let step = cfg.angle_step as int;
    if thetas.len() == 0 {
        return;
    }
    let init = thetas.drop_last();
    assert forall|i: int| 0 <= i < init.len() implies is_canonical(#[trigger] init[i] as int) by {
        assert(init[i] == thetas[i]);
    }
    assert forall|i: int| 1 <= i < init.len() implies {
        let d = #[trigger] shortest_delta(init[i - 1] as int, init[i] as int);
        if cw {
            d >= 0
        } else {
            d <= 0
        }
    } by {
        assert(init[i] == thetas[i] && init[i - 1] == thetas[i - 1]);
        assert(shortest_delta(thetas[i - 1] as int, thetas[i] as int) == shortest_delta(
            init[i - 1] as int,
            init[i] as int,
        ));
    }
    lemma_one_way_invariant(cfg, init, cw);
    let prev = run(idle(), cfg, init);
    let theta = thetas.last();
    let before = run_ticks(idle(), cfg, init);
    let all = run_ticks(idle(), cfg, thetas);
    assert(is_canonical(thetas[thetas.len() - 1] as int));
    if init.len() == 0 {
        assert(all =~= Seq::<i32>::empty());
    } else {
        let i = thetas.len() - 1;
        assert(1 <= i < thetas.len());
        let d = shortest_delta(thetas[i - 1] as int, thetas[i] as int);
        assert(prev.last_theta == Some(thetas[i - 1]));
        let acc = prev.accumulated(theta as int);
        assert(acc == prev.theta_acc + d);
        let n = tick_count(acc, step);
        lemma_remainder_bounds(acc, step);
        let new_ticks = ticks_for(acc, step, cfg.invert);
        assert(all =~= before + new_ticks);
        if n > 0 {
            assert(cw ==> acc > 0);
            assert(!cw ==> acc < 0) by {
                if !cw && acc == 0 {
                    vstd::arithmetic::div_mod::lemma_basic_div(0, step);
                }
            }
        }
        assert forall|j: int| 0 <= j < all.len() implies #[trigger] all[j] == tick_value(
            cw,
            cfg.invert,
        ) by {
            if j < before.len() {
                assert(all[j] == before[j]);
            } else {
                assert(all[j] == new_ticks[j - before.len()]);
            }
        }
        assert(-0x1_0000_0000 < remainder(acc, step) < 0x1_0000_0000);
        let dir: int = if acc > 0 { 1 } else { -1 };
        assert(dir * n * step == if acc > 0 { n * step } else { -(n * step) }) by (nonlinear_arith)
            requires dir == if acc > 0 { 1int } else { -1int };
        assert((before.len() + n) * step == before.len() * step + n * step) by (nonlinear_arith);
    }
}

} // verus!
