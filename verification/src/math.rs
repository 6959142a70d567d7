//! Fixed-point arithmetic helpers: scales, clamping, exact scaled
//! displacement (truncating toward zero) and an integer square root.

use vstd::prelude::*;

verus! {

/// Scale of fixed-point coordinates, speeds and altitudes: 1000 = 1.0 unit.
pub const MILLI: i64 = 1000;

/// Scale of the fixed-point trigonometric values: 1_000_000 stands for 1.0.
pub const TRIG_ONE: i64 = 1_000_000;

/// Largest magnitude a coordinate, speed or altitude may take, in milli-units.
pub const COORD_LIMIT: i64 = 1_000_000_000_000_000_000;

/// Largest magnitude a timestamp may take, in seconds.
pub const TIME_LIMIT: i64 = 10_000_000_000_000;

pub open spec fn abs_val(a: int) -> int {
    if a < 0 {
        -a
    } else {
        a
    }
}

/// An integer pushed into the coordinate range, saturating at the ends.
pub open spec fn clamp_coord_spec(v: int) -> int {
    if v > COORD_LIMIT as int {
        COORD_LIMIT as int
    } else if v < -(COORD_LIMIT as int) {
        -(COORD_LIMIT as int)
    } else {
        v
    }
}

pub fn clamp_coord(v: i128) -> (r: i64)
    ensures
        r as int == clamp_coord_spec(v as int),
{
    if v > COORD_LIMIT as i128 {
        COORD_LIMIT
    } else if v < -(COORD_LIMIT as i128) {
        -COORD_LIMIT
    } else {
        v as i64
    }
}

/// Exact displacement along one axis: speed (milli-units per hour) times
/// elapsed seconds gives milli-units-seconds-per-hour; division by 3600
/// gives milli-units travelled; the trig factor (over `TRIG_ONE`) projects
/// that distance onto the axis.  Both divisions truncate toward zero.
pub open spec fn displacement(speed: int, elapsed: int, trig: int) -> int {
    let mag = ((abs_val(speed * elapsed) / 3600) * abs_val(trig)) / (TRIG_ONE as int);
    if (speed * elapsed >= 0) == (trig >= 0) {
        mag
    } else {
        -mag
    }
}

pub fn scaled_displacement(speed: i64, elapsed: i64, trig: i64) -> (r: i128)
    requires
        abs_val(speed as int) <= COORD_LIMIT as int,
        abs_val(elapsed as int) <= 2 * (TIME_LIMIT as int),
        abs_val(trig as int) <= TRIG_ONE as int,
    ensures
        r as int == displacement(speed as int, elapsed as int, trig as int),
        abs_val(r as int) <= abs_val((speed as int) * (elapsed as int)) / 3600,
{
    proof {
        assert((speed as int) * (elapsed as int) <= (COORD_LIMIT as int) * 2 * (TIME_LIMIT as int)
            && (speed as int) * (elapsed as int) >= -((COORD_LIMIT as int) * 2 * (
        TIME_LIMIT as int))) by (nonlinear_arith)
            requires
                abs_val(speed as int) <= COORD_LIMIT as int,
                abs_val(elapsed as int) <= 2 * (TIME_LIMIT as int),
        ;
    }
    let se: i128 = (speed as i128) * (elapsed as i128);
    let se_abs: u128 = if se < 0 {
        (-se) as u128
    } else {
        se as u128
    };
    proof {
        assert(se_abs as int == abs_val(se as int));
        assert(se_abs <= 20_000_000_000_000_000_000_000_000_000_000u128);
    }
    let d: u128 = se_abs / 3600;
    proof {
        assert(d <= 6_000_000_000_000_000_000_000_000_000u128) by (nonlinear_arith)
            requires
                d == se_abs / 3600,
                se_abs <= 20_000_000_000_000_000_000_000_000_000_000u128,
        ;
    }
    let t_abs: u128 = if trig < 0 {
        (-(trig as i128)) as u128
    } else {
        trig as u128
    };
    proof {
        assert(d * t_abs <= 6_000_000_000_000_000_000_000_000_000u128 * 1_000_000) by (nonlinear_arith)
            requires
                d <= 6_000_000_000_000_000_000_000_000_000u128,
                t_abs <= 1_000_000u128,
        ;
    }
    let m: u128 = (d * t_abs) / 1_000_000;
    proof {
        assert(m <= d) by (nonlinear_arith)
            requires
                m == (d * t_abs) / 1_000_000,
                t_abs <= 1_000_000,
        ;
    }
    let neg = (se < 0) != (trig < 0);
    if neg {
        -(m as i128)
    } else {
        m as i128
    }
}

/// The floor of the square root: binary search on the answer.
pub fn isqrt(n: u128) -> (r: u128)
    ensures
        (r as int) * (r as int) <= n as int,
        (n as int) < (r as int + 1) * (r as int + 1),
{
    let mut lo: u128 = 0;
    let mut hi: u128 = 18446744073709551616;
    proof {
        assert((n as int) < 18446744073709551616 * 18446744073709551616) by (nonlinear_arith)
            requires
                n <= u128::MAX,
        ;
    }
    while hi - lo > 1
        invariant
            lo < hi,
            hi <= 18446744073709551616,
            (lo as int) * (lo as int) <= n as int,
            (n as int) < (hi as int) * (hi as int),
        decreases hi - lo,
    {
        let mid: u128 = lo + (hi - lo) / 2;
        proof {
            assert((mid as int) * (mid as int) < 18446744073709551616 * 18446744073709551616)
                by (nonlinear_arith)
                requires
                    mid < 18446744073709551616,
            ;
        }
        if mid * mid <= n {
            lo = mid;
        } else {
            hi = mid;
        }
    }
    lo
}

/// For a floor square root `r` of `n`, comparing `r` against a bound `k` is
/// the same as comparing `n` against `(k + 1)^2`.
pub proof fn lemma_isqrt_le(r: int, k: int, n: int)
    requires
        0 <= r,
        0 <= k,
        r * r <= n,
        n < (r + 1) * (r + 1),
    ensures
        (r <= k) <==> (n < (k + 1) * (k + 1)),
{
    if r <= k {
        assert((r + 1) * (r + 1) <= (k + 1) * (k + 1)) by (nonlinear_arith)
            requires
                0 <= r <= k,
        ;
    }
    if n < (k + 1) * (k + 1) && r > k {
        assert((k + 1) * (k + 1) <= r * r) by (nonlinear_arith)
            requires
                0 <= k,
                k + 1 <= r,
        ;
    }
}

} // verus!
