//! The rim classifier, the angle tracker, the scroll emitter, and the state
//! machine that runs them over a stream of samples.
use vstd::prelude::*;
use crate::angle::{is_canonical, shortest_delta, branch_cut_delta};
use crate::calibration::NormalizedPoint;

verus! {

/// Largest magnitude a settled accumulator can have (one tick short of `u32::MAX`).
pub const ACC_BOUND: i64 = 0xFFFF_FFFF;

/// What the gesture detector is tuned with.
#[derive(Debug, Clone, Copy, PartialEq, Eq, Structural)]
pub struct GestureConfig {
    /// Inner radius of the rim, in units of `calibration::UNIT`.
    pub r_min: u32,
    /// Outer radius of the rim, in units of `calibration::UNIT`.
    pub r_max: u32,
    /// Arc per scroll tick, in angle units (millionths of a degree).
    pub angle_step: u32,
    /// Swaps the direction of every tick.
    pub invert: bool,
}

impl GestureConfig {
    /// A positive step and a non-empty rim.
    pub open spec fn wf(self) -> bool {
        self.angle_step > 0 && self.r_min <= self.r_max
    }

    /// Checks the values: the step must be positive and the rim non-empty.
    pub fn new(r_min: u32, r_max: u32, angle_step: u32, invert: bool) -> (r: Result<
        GestureConfig,
        crate::calibration::ConfigError,
    >)
        ensures
            angle_step == 0 ==> r == Err::<GestureConfig, crate::calibration::ConfigError>(
                crate::calibration::ConfigError::ZeroAngleStep,
            ),
            angle_step > 0 && r_min > r_max ==> r == Err::<
                GestureConfig,
                crate::calibration::ConfigError,
            >(crate::calibration::ConfigError::EmptyRim),
            angle_step > 0 && r_min <= r_max ==> r == Ok::<
                GestureConfig,
                crate::calibration::ConfigError,
            >(GestureConfig { r_min, r_max, angle_step, invert }),
            r is Ok ==> r->Ok_0.wf(),
    {
        if angle_step == 0 {
            Err(crate::calibration::ConfigError::ZeroAngleStep)
        } else if r_min > r_max {
            Err(crate::calibration::ConfigError::EmptyRim)
        } else {
            Ok(GestureConfig { r_min, r_max, angle_step, invert })
        }
    }

    /// The default tuning: a rim from 0.8 to 1.0, six degrees per tick, not inverted.
    pub fn standard() -> (c: GestureConfig)
        ensures
            c.wf(),
            c == (GestureConfig {
                r_min: 800_000,
                r_max: 1_000_000,
                angle_step: 6_000_000,
                invert: false,
            }),
    {
        GestureConfig { r_min: 800_000, r_max: 1_000_000, angle_step: 6_000_000, invert: false }
    }
}

/// The point lies in the rim: `r_min <= sqrt(nx^2 + ny^2) <= r_max`, compared
/// squared, which is exact since both sides are non-negative.
pub open spec fn in_rim_spec(cfg: GestureConfig, p: NormalizedPoint) -> bool {
    let r2 = p.nx * p.nx + p.ny * p.ny;
    cfg.r_min * cfg.r_min <= r2 <= cfg.r_max * cfg.r_max
}

fn square_of(v: i64) -> (s: u128)
    ensures
        s == v * v,
{
    let a: u128 = if v < 0 {
        (-(v as i128)) as u128
    } else {
        v as u128
    };
    assert(a * a == v * v) by (nonlinear_arith)
        requires
            a == v || a == -v,
    ;
    assert(a * a <= 0x8000_0000_0000_0000 * 0x8000_0000_0000_0000) by (nonlinear_arith)
        requires
            0 <= a <= 0x8000_0000_0000_0000,
    ;
    a * a
}

/// Classifies a normalized point as inside or outside the rim.
pub fn in_rim(cfg: &GestureConfig, p: &NormalizedPoint) -> (b: bool)
    ensures
        b == in_rim_spec(*cfg, *p),
{
    let x2: u128 = square_of(p.nx);
    let y2: u128 = square_of(p.ny);
    assert(x2 <= 0x4000_0000_0000_0000_0000_0000_0000_0000) by (nonlinear_arith)
        requires
            x2 == p.nx * p.nx,
            -0x8000_0000_0000_0000 <= p.nx <= 0x7FFF_FFFF_FFFF_FFFF,
    ;
    assert(y2 <= 0x4000_0000_0000_0000_0000_0000_0000_0000) by (nonlinear_arith)
        requires
            y2 == p.ny * p.ny,
            -0x8000_0000_0000_0000 <= p.ny <= 0x7FFF_FFFF_FFFF_FFFF,
    ;
    let r2: u128 = x2 + y2;
    let lo: u128 = square_of(cfg.r_min as i64);
    let hi: u128 = square_of(cfg.r_max as i64);
    lo <= r2 && r2 <= hi
}

/// The value of one tick: `1` scrolls down, `-1` up. A positive (clockwise)
/// accumulation scrolls down unless `invert` is set.
pub open spec fn tick_value(positive: bool, invert: bool) -> i32 {
    if positive != invert {
        1i32
    } else {
        -1i32
    }
}

/// Number of whole steps in the accumulated angle.
pub open spec fn tick_count(acc: int, step: int) -> nat {
    (if acc >= 0 {
        acc / step
    } else {
        -acc / step
    }) as nat
}

/// What remains of the accumulator once every whole step has been emitted:
/// its magnitude shrinks by one step per tick, its sign is kept.
pub open spec fn remainder(acc: int, step: int) -> int {
    if acc > 0 {
        acc - tick_count(acc, step) * step
    } else {
        acc + tick_count(acc, step) * step
    }
}

/// The ticks emitted for an accumulated angle: `tick_count` copies of one value.
pub open spec fn ticks_for(acc: int, step: int, invert: bool) -> Seq<i32> {
    Seq::new(tick_count(acc, step), |_i: int| tick_value(acc > 0, invert))
}

/// Emits one tick for each whole `step` in `*acc`, moving `*acc` toward zero by
/// `step` per tick, until less than one step is left.
pub fn emit_ticks(acc: &mut i64, step: u32, invert: bool) -> (ticks: Vec<i32>)
    requires
        step > 0,
    ensures
        ticks@ == ticks_for(*old(acc) as int, step as int, invert),
        *final(acc) == remainder(*old(acc) as int, step as int),
        -(step as int) < *final(acc) < step,
{
    let ghost a0: int = *acc as int;
    let s: i64 = step as i64;
    let mut a: i64 = *acc;
    let mut ticks: Vec<i32> = Vec::new();
    let positive: bool = a > 0;
    let t: i32 = if positive != invert {
        1
    } else {
        -1
    };
    while a >= s || a <= -s
        invariant
            s == step,
            s > 0,
            t == tick_value(a0 > 0, invert),
            positive == (a0 > 0),
            positive ==> 0 <= a && a == a0 - ticks@.len() * s,
            !positive ==> a <= 0 && a == a0 + ticks@.len() * s,
            ticks@ == Seq::new(ticks@.len(), |_i: int| tick_value(a0 > 0, invert)),
        decreases
            if a >= 0 {
                a as int
            } else {
                -a
            },
    {
        let ghost k = ticks@.len() as int;
        assert((k + 1) * s == k * s + s) by (nonlinear_arith);
        if a > 0 {
            a = a - s;
        } else {
            a = a + s;
        }
        ticks.push(t);
        assert(ticks@ =~= Seq::new(ticks@.len(), |_i: int| tick_value(a0 > 0, invert)));
    }
    proof {
        let k = ticks@.len() as int;
        let m = if a0 >= 0 { a0 } else { -a0 };
        let r = if a >= 0 { a as int } else { -a };
        assert(m == k * s + r);
        vstd::arithmetic::div_mod::lemma_fundamental_div_mod_converse(m, s as int, k, r);
        assert(tick_count(a0, s as int) == k);
    }
    *acc = a;
    ticks
}

/// What the machine carries from one sample to the next.
#[derive(Debug, Clone, Copy, PartialEq, Eq, Structural)]
pub struct GestureState {
    /// The angle of the previous in-rim sample; `None` while idle.
    pub last_theta: Option<i64>,
    /// Signed arc travelled and not yet turned into ticks, in angle units.
    pub theta_acc: i64,
}

/// The state at start and after every rim exit.
pub open spec fn idle() -> GestureState {
    GestureState { last_theta: None, theta_acc: 0 }
}

impl GestureState {
    /// A stored angle is canonical and the accumulator is within bounds.
    pub open spec fn wf(self) -> bool {
        &&& (self.last_theta matches Some(t) ==> is_canonical(t as int))
        &&& -ACC_BOUND <= self.theta_acc <= ACC_BOUND
    }

    /// Less than one step is accumulated.
    pub open spec fn settled(self, cfg: GestureConfig) -> bool {
        -(cfg.angle_step as int) < self.theta_acc < cfg.angle_step
    }

    /// The accumulator after an in-rim sample at `theta`, before any tick.
    pub open spec fn accumulated(self, theta: int) -> int {
        match self.last_theta {
            Some(prev) => self.theta_acc + shortest_delta(prev as int, theta),
            None => self.theta_acc as int,
        }
    }

    /// The state after a sample at angle `theta`, inside the rim or not.
    pub open spec fn next(self, cfg: GestureConfig, inside: bool, theta: i64) -> GestureState {
        if !inside {
            idle()
        } else if self.last_theta is None {
            GestureState { last_theta: Some(theta), theta_acc: self.theta_acc }
        } else {
            GestureState {
                last_theta: Some(theta),
                theta_acc: remainder(self.accumulated(theta as int), cfg.angle_step as int) as i64,
            }
        }
    }

    /// The ticks a sample at angle `theta` emits: none on a rim exit or on the
    /// first sample of a tracking sequence.
    pub open spec fn emitted(self, cfg: GestureConfig, inside: bool, theta: i64) -> Seq<i32> {
        if inside && self.last_theta is Some {
            ticks_for(self.accumulated(theta as int), cfg.angle_step as int, cfg.invert)
        } else {
            Seq::empty()
        }
    }

    /// An idle state.
    pub fn new() -> (s: GestureState)
        ensures
            s == idle(),
            s.wf(),
    {
        GestureState { last_theta: None, theta_acc: 0 }
    }

    /// Forgets the tracked angle and the accumulated arc.
    pub fn reset(&mut self)
        ensures
            *final(self) == idle(),
    {
        self.last_theta = None;
        self.theta_acc = 0;
    }

    /// Handles an in-rim sample at angle `theta`: the first one after a reset
    /// only records the angle; later ones add the shortest turn since the
    /// previous angle and emit the ticks it completes.
    pub fn track(&mut self, cfg: &GestureConfig, theta: i64) -> (ticks: Vec<i32>)
        requires
            old(self).wf(),
            cfg.wf(),
            is_canonical(theta as int),
        ensures
            *final(self) == old(self).next(*cfg, true, theta),
            ticks@ == old(self).emitted(*cfg, true, theta),
            final(self).wf(),
            old(self).last_theta is Some ==> final(self).settled(*cfg),
    {
        match self.last_theta {
            Some(prev) => {
                let d: i64 = branch_cut_delta(prev, theta);
                let mut acc: i64 = self.theta_acc + d;
                let ticks: Vec<i32> = emit_ticks(&mut acc, cfg.angle_step, cfg.invert);
                self.theta_acc = acc;
                self.last_theta = Some(theta);
                ticks
            },
            None => {
                self.last_theta = Some(theta);
                Vec::new()
            },
        }
    }

    /// Runs one sample through the machine: outside the rim the state is
    /// reset, inside it is tracked. `theta` is the sample's angle, which only
    /// matters inside the rim.
    pub fn process(&mut self, cfg: &GestureConfig, p: &NormalizedPoint, theta: i64) -> (ticks: Vec<
        i32,
    >)
        requires
            old(self).wf(),
            cfg.wf(),
            is_canonical(theta as int),
        ensures
            *final(self) == old(self).next(*cfg, in_rim_spec(*cfg, *p), theta),
            ticks@ == old(self).emitted(*cfg, in_rim_spec(*cfg, *p), theta),
            final(self).wf(),
            old(self).settled(*cfg) ==> final(self).settled(*cfg),
    {
        if in_rim(cfg, p) {
            self.track(cfg, theta)
        } else {
            self.reset();
            Vec::new()
        }
    }
}

} // verus!
