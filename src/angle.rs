//! Angles in millionths of a degree, and the shortest signed turn between two of them.
use vstd::prelude::*;

verus! {

/// Angle units in one degree.
pub const UNITS_PER_DEGREE: i64 = 1_000_000;

/// Half a turn (180 degrees) in angle units.
pub const HALF_TURN: i64 = 180_000_000;

/// A full turn (360 degrees) in angle units.
pub const FULL_TURN: i64 = 360_000_000;

/// A canonical angle lies in the half-open interval (-180, 180] degrees,
/// the range of `atan2`.
pub open spec fn is_canonical(theta: int) -> bool {
    -HALF_TURN < theta <= HALF_TURN
}

/// Two angles name the same direction.
pub open spec fn same_direction(a: int, b: int) -> bool {
    (a - b) % (FULL_TURN as int) == 0
}

/// The canonical representative of an angle.
pub open spec fn canonical_of(theta: int) -> int {
    (theta + HALF_TURN - 1) % (FULL_TURN as int) - HALF_TURN + 1
}

/// The signed turn from `prev` to `theta` along the shorter way round.
pub open spec fn shortest_delta(prev: int, theta: int) -> int {
    let d = theta - prev;
    if d > HALF_TURN {
        d - FULL_TURN
    } else if d < -HALF_TURN {
        d + FULL_TURN
    } else {
        d
    }
}

/// Floor division by a positive divisor.
pub(crate) fn floor_div(n: i128, d: i128) -> (q: i128)
    requires
        d > 0,
    ensures
        q == n / d,
        n >= 0 ==> 0 <= q <= n,
        n < 0 ==> n <= q < 0,
{
    if n >= 0 {
        proof {
            vstd::arithmetic::div_mod::lemma_div_pos_is_pos(n as int, d as int);
            vstd::arithmetic::div_mod::lemma_div_is_ordered_by_denominator(n as int, 1, d as int);
            vstd::arithmetic::div_mod::lemma_div_basics(n as int);
        }
        n / d
    } else {
        let m: i128 = -(n + 1);
        let q0: i128 = m / d;
        proof {
            let ni = n as int;
            let di = d as int;
            let qi = q0 as int;
            let ri = m as int - qi * di;
            vstd::arithmetic::div_mod::lemma_fundamental_div_mod(m as int, di);
            vstd::arithmetic::div_mod::lemma_mod_pos_bound(m as int, di);
            assert(qi == m as int / di);
            assert(ri == m as int % di) by (nonlinear_arith)
                requires
                    m as int == di * (m as int / di) + m as int % di,
                    qi == m as int / di,
                    ri == m as int - qi * di,
            ;
            assert(ni == (-qi - 1) * di + (di - 1 - ri)) by (nonlinear_arith)
                requires
                    m as int == -(ni + 1),
                    ri == m as int - qi * di,
            ;
            vstd::arithmetic::div_mod::lemma_div_pos_is_pos(m as int, di);
            vstd::arithmetic::div_mod::lemma_div_is_ordered_by_denominator(m as int, 1, di);
            vstd::arithmetic::div_mod::lemma_div_basics(m as int);
            vstd::arithmetic::div_mod::lemma_fundamental_div_mod_converse(
                ni,
                di,
                -qi - 1,
                di - 1 - ri,
            );
        }
        -q0 - 1
    }
}

/// Brings any angle into the canonical range (-180, 180] degrees without
/// changing the direction it names.
pub fn wrap_angle(theta: i64) -> (r: i64)
    ensures
        r == canonical_of(theta as int),
        is_canonical(r as int),
        same_direction(r as int, theta as int),
{
    let u: i128 = theta as i128 + HALF_TURN as i128 - 1;
    let q: i128 = floor_div(u, FULL_TURN as i128);
    let m: i128 = u - q * FULL_TURN as i128;
    proof {
        vstd::arithmetic::div_mod::lemma_fundamental_div_mod(u as int, FULL_TURN as int);
        assert(0 <= m < FULL_TURN);
        assert(m == u as int % (FULL_TURN as int));
        assert(theta as int == (m - HALF_TURN + 1) + q * FULL_TURN);
        vstd::arithmetic::div_mod::lemma_mod_multiples_basic(-q as int, FULL_TURN as int);
        assert((m - HALF_TURN + 1) - theta == (-q) * FULL_TURN) by (nonlinear_arith)
            requires theta as int == (m - HALF_TURN + 1) + q * FULL_TURN;
    }
    (m - HALF_TURN as i128 + 1) as i64
}

/// The turn from `prev` to `theta`, corrected across the seam at 180 degrees
/// so that the shorter way round is taken.
pub fn branch_cut_delta(prev: i64, theta: i64) -> (d: i64)
    requires
        is_canonical(prev as int),
        is_canonical(theta as int),
    ensures
        d == shortest_delta(prev as int, theta as int),
        -HALF_TURN <= d <= HALF_TURN,
        same_direction(d as int, theta - prev),
{
    let raw: i64 = theta - prev;
    if raw > HALF_TURN {
        proof { vstd::arithmetic::div_mod::lemma_mod_multiples_basic(-1, FULL_TURN as int); }
        raw - FULL_TURN
    } else if raw < -HALF_TURN {
        proof { vstd::arithmetic::div_mod::lemma_mod_multiples_basic(1, FULL_TURN as int); }
        raw + FULL_TURN
    } else {
        proof { vstd::arithmetic::div_mod::lemma_mod_multiples_basic(0, FULL_TURN as int); }
        raw
    }
}

} // verus!
