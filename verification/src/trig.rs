//! Fixed-point trigonometry at milli-degree resolution.
//!
//! Headings are compass-style: measured clockwise from the +y axis, so that
//! the x-displacement of a move is proportional to the sine of the heading
//! and the y-displacement to its cosine.  Sine values are scaled by
//! `TRIG_ONE` and come from a per-degree table with linear interpolation
//! between whole degrees; the table is exact at the cardinal points.

use vstd::prelude::*;
use crate::math::{COORD_LIMIT, TRIG_ONE};

verus! {

/// The sine of a whole number of degrees in the first quadrant, scaled by
/// `TRIG_ONE`; degrees outside [0, 90] read as the value at 90.
pub open spec fn sin_table(d: int) -> int {
    if d == 0 {
        0
    } else if d == 1 {
        17452
    } else if d == 2 {
        34899
    } else if d == 3 {
        52336
    } else if d == 4 {
        69756
    } else if d == 5 {
        87156
    } else if d == 6 {
        104528
    } else if d == 7 {
        121869
    } else if d == 8 {
        139173
    } else if d == 9 {
        156434
    } else if d == 10 {
        173648
    } else if d == 11 {
        190809
    } else if d == 12 {
        207912
    } else if d == 13 {
        224951
    } else if d == 14 {
        241922
    } else if d == 15 {
        258819
    } else if d == 16 {
        275637
    } else if d == 17 {
        292372
    } else if d == 18 {
        309017
    } else if d == 19 {
        325568
    } else if d == 20 {
        342020
    } else if d == 21 {
        358368
    } else if d == 22 {
        374607
    } else if d == 23 {
        390731
    } else if d == 24 {
        406737
    } else if d == 25 {
        422618
    } else if d == 26 {
        438371
    } else if d == 27 {
        453990
    } else if d == 28 {
        469472
    } else if d == 29 {
        484810
    } else if d == 30 {
        500000
    } else if d == 31 {
        515038
    } else if d == 32 {
        529919
    } else if d == 33 {
        544639
    } else if d == 34 {
        559193
    } else if d == 35 {
        573576
    } else if d == 36 {
        587785
    } else if d == 37 {
        601815
    } else if d == 38 {
        615661
    } else if d == 39 {
        629320
    } else if d == 40 {
        642788
    } else if d == 41 {
        656059
    } else if d == 42 {
        669131
    } else if d == 43 {
        681998
    } else if d == 44 {
        694658
    } else if d == 45 {
        707107
    } else if d == 46 {
        719340
    } else if d == 47 {
        731354
    } else if d == 48 {
        743145
    } else if d == 49 {
        754710
    } else if d == 50 {
        766044
    } else if d == 51 {
        777146
    } else if d == 52 {
        788011
    } else if d == 53 {
        798636
    } else if d == 54 {
        809017
    } else if d == 55 {
        819152
    } else if d == 56 {
        829038
    } else if d == 57 {
        838671
    } else if d == 58 {
        848048
    } else if d == 59 {
        857167
    } else if d == 60 {
        866025
    } else if d == 61 {
        874620
    } else if d == 62 {
        882948
    } else if d == 63 {
        891007
    } else if d == 64 {
        898794
    } else if d == 65 {
        906308
    } else if d == 66 {
        913545
    } else if d == 67 {
        920505
    } else if d == 68 {
        927184
    } else if d == 69 {
        933580
    } else if d == 70 {
        939693
    } else if d == 71 {
        945519
    } else if d == 72 {
        951057
    } else if d == 73 {
        956305
    } else if d == 74 {
        961262
    } else if d == 75 {
        965926
    } else if d == 76 {
        970296
    } else if d == 77 {
        974370
    } else if d == 78 {
        978148
    } else if d == 79 {
        981627
    } else if d == 80 {
        984808
    } else if d == 81 {
        987688
    } else if d == 82 {
        990268
    } else if d == 83 {
        992546
    } else if d == 84 {
        994522
    } else if d == 85 {
        996195
    } else if d == 86 {
        997564
    } else if d == 87 {
        998630
    } else if d == 88 {
        999391
    } else if d == 89 {
        999848
    } else if d == 90 {
        1000000
    } else {
        1_000_000
    }
}

fn sin_table_at(d: i64) -> (r: i64)
    ensures
        r as int == sin_table(d as int),
{
    if d == 0 {
        0
    } else if d == 1 {
        17452
    } else if d == 2 {
        34899
    } else if d == 3 {
        52336
    } else if d == 4 {
        69756
    } else if d == 5 {
        87156
    } else if d == 6 {
        104528
    } else if d == 7 {
        121869
    } else if d == 8 {
        139173
    } else if d == 9 {
        156434
    } else if d == 10 {
        173648
    } else if d == 11 {
        190809
    } else if d == 12 {
        207912
    } else if d == 13 {
        224951
    } else if d == 14 {
        241922
    } else if d == 15 {
        258819
    } else if d == 16 {
        275637
    } else if d == 17 {
        292372
    } else if d == 18 {
        309017
    } else if d == 19 {
        325568
    } else if d == 20 {
        342020
    } else if d == 21 {
        358368
    } else if d == 22 {
        374607
    } else if d == 23 {
        390731
    } else if d == 24 {
        406737
    } else if d == 25 {
        422618
    } else if d == 26 {
        438371
    } else if d == 27 {
        453990
    } else if d == 28 {
        469472
    } else if d == 29 {
        484810
    } else if d == 30 {
        500000
    } else if d == 31 {
        515038
    } else if d == 32 {
        529919
    } else if d == 33 {
        544639
    } else if d == 34 {
        559193
    } else if d == 35 {
        573576
    } else if d == 36 {
        587785
    } else if d == 37 {
        601815
    } else if d == 38 {
        615661
    } else if d == 39 {
        629320
    } else if d == 40 {
        642788
    } else if d == 41 {
        656059
    } else if d == 42 {
        669131
    } else if d == 43 {
        681998
    } else if d == 44 {
        694658
    } else if d == 45 {
        707107
    } else if d == 46 {
        719340
    } else if d == 47 {
        731354
    } else if d == 48 {
        743145
    } else if d == 49 {
        754710
    } else if d == 50 {
        766044
    } else if d == 51 {
        777146
    } else if d == 52 {
        788011
    } else if d == 53 {
        798636
    } else if d == 54 {
        809017
    } else if d == 55 {
        819152
    } else if d == 56 {
        829038
    } else if d == 57 {
        838671
    } else if d == 58 {
        848048
    } else if d == 59 {
        857167
    } else if d == 60 {
        866025
    } else if d == 61 {
        874620
    } else if d == 62 {
        882948
    } else if d == 63 {
        891007
    } else if d == 64 {
        898794
    } else if d == 65 {
        906308
    } else if d == 66 {
        913545
    } else if d == 67 {
        920505
    } else if d == 68 {
        927184
    } else if d == 69 {
        933580
    } else if d == 70 {
        939693
    } else if d == 71 {
        945519
    } else if d == 72 {
        951057
    } else if d == 73 {
        956305
    } else if d == 74 {
        961262
    } else if d == 75 {
        965926
    } else if d == 76 {
        970296
    } else if d == 77 {
        974370
    } else if d == 78 {
        978148
    } else if d == 79 {
        981627
    } else if d == 80 {
        984808
    } else if d == 81 {
        987688
    } else if d == 82 {
        990268
    } else if d == 83 {
        992546
    } else if d == 84 {
        994522
    } else if d == 85 {
        996195
    } else if d == 86 {
        997564
    } else if d == 87 {
        998630
    } else if d == 88 {
        999391
    } else if d == 89 {
        999848
    } else if d == 90 {
        1000000
    } else {
        1_000_000
    }
}

/// The sine over the first quadrant at milli-degree resolution: linear
/// interpolation between whole degrees of the table.
pub open spec fn sin_quadrant(md: int) -> int {
    let d = md / 1000;
    let f = md % 1000;
    sin_table(d) + ((sin_table(d + 1) - sin_table(d)) * f) / 1000
}

fn sin_quadrant_at(md: i64) -> (r: i64)
    requires
        0 <= md <= 90_000,
    ensures
        r as int == sin_quadrant(md as int),
        0 <= r <= TRIG_ONE,
{
    let d: i64 = md / 1000;
    let f: i64 = md % 1000;
    let lo: i64 = sin_table_at(d);
    let hi: i64 = sin_table_at(d + 1);
    proof {
        assert(0 <= sin_table(d as int) <= 1_000_000);
        assert(0 <= sin_table(d as int + 1) <= 1_000_000);
        assert(sin_table(d as int) <= sin_table(d as int + 1));
        assert(0 <= (hi - lo) * f <= (hi - lo) * 1000) by (nonlinear_arith)
            requires
                0 <= f < 1000,
                hi >= lo,
        ;
    }
    lo + ((hi - lo) * f) / 1000
}

/// A heading brought into [0, 360_000) milli-degrees.
pub open spec fn norm_heading(h: int) -> int {
    h % 360_000
}

pub fn normalize_heading(h: i64) -> (r: i64)
    ensures
        r as int == norm_heading(h as int),
        0 <= r < 360_000,
{
    let m: i64 = h % 360_000;
    if m < 0 {
        m + 360_000
    } else {
        m
    }
}

/// The sine of a normalized compass heading in [0, 360_000) milli-degrees,
/// folded onto the first-quadrant table.
pub open spec fn sin_normalized(md: int) -> int {
    if md <= 90_000 {
        sin_quadrant(md)
    } else if md <= 180_000 {
        sin_quadrant(180_000 - md)
    } else if md <= 270_000 {
        -sin_quadrant(md - 180_000)
    } else {
        -sin_quadrant(360_000 - md)
    }
}

/// The sine of any heading in milli-degrees, scaled by `TRIG_ONE`.
pub open spec fn sin_milli(h: int) -> int {
    sin_normalized(norm_heading(h))
}

/// The cosine of any heading in milli-degrees, scaled by `TRIG_ONE`: the
/// sine a quarter turn further along.
pub open spec fn cos_milli(h: int) -> int {
    let n = norm_heading(h);
    if n >= 270_000 {
        sin_normalized(n - 270_000)
    } else {
        sin_normalized(n + 90_000)
    }
}

fn sin_normalized_at(md: i64) -> (r: i64)
    requires
        0 <= md < 360_000,
    ensures
        r as int == sin_normalized(md as int),
        -TRIG_ONE <= r <= TRIG_ONE,
{
    if md <= 90_000 {
        sin_quadrant_at(md)
    } else if md <= 180_000 {
        sin_quadrant_at(180_000 - md)
    } else if md <= 270_000 {
        -sin_quadrant_at(md - 180_000)
    } else {
        -sin_quadrant_at(360_000 - md)
    }
}

pub fn sin_of_heading(h: i64) -> (r: i64)
    ensures
        r as int == sin_milli(h as int),
        -TRIG_ONE <= r <= TRIG_ONE,
{
    let n: i64 = normalize_heading(h);
    sin_normalized_at(n)
}

pub fn cos_of_heading(h: i64) -> (r: i64)
    ensures
        r as int == cos_milli(h as int),
        -TRIG_ONE <= r <= TRIG_ONE,
{
    let n: i64 = normalize_heading(h);
    if n >= 270_000 {
        sin_normalized_at(n - 270_000)
    } else {
        sin_normalized_at(n + 90_000)
    }
}

/// The angle the binary search of `quadrant_angle` settles on, between the
/// bracket bounds `lo` and `hi` (milli-degrees within the first quadrant).
pub open spec fn quadrant_search(ax: int, ay: int, lo: int, hi: int) -> int
    decreases hi - lo,
{
    if hi - lo <= 1 {
        lo
    } else {
        let mid = lo + (hi - lo) / 2;
        if ay * sin_quadrant(mid) <= ax * sin_quadrant(90_000 - mid) {
            quadrant_search(ax, ay, mid, hi)
        } else {
            quadrant_search(ax, ay, lo, mid)
        }
    }
}

fn quadrant_angle(ax: i64, ay: i64) -> (r: i64)
    requires
        0 < ax <= 2 * (COORD_LIMIT as int),
        0 < ay <= 2 * (COORD_LIMIT as int),
    ensures
        0 <= r < 90_000,
        r as int == quadrant_search(ax as int, ay as int, 0, 90_000),
{
    let mut lo: i64 = 0;
    let mut hi: i64 = 90_000;
    while hi - lo > 1
        invariant
            0 <= lo < hi <= 90_000,
            0 < ax <= 2 * (COORD_LIMIT as int),
            0 < ay <= 2 * (COORD_LIMIT as int),
            quadrant_search(ax as int, ay as int, lo as int, hi as int) == quadrant_search(
                ax as int,
                ay as int,
                0,
                90_000,
            ),
        decreases hi - lo,
    {
        let mid: i64 = lo + (hi - lo) / 2;
        let s: i64 = sin_quadrant_at(mid);
        let c: i64 = sin_quadrant_at(90_000 - mid);
        proof {
            assert((ay as i128) * (s as i128) <= 2_000_000_000_000_000_000i128 * 1_000_000
                && (ay as i128) * (s as i128) >= 0 && (ax as i128) * (c as i128)
                <= 2_000_000_000_000_000_000i128 * 1_000_000 && (ax as i128) * (c as i128) >= 0)
                by (nonlinear_arith)
                requires
                    0 < ax <= 2_000_000_000_000_000_000i128,
                    0 < ay <= 2_000_000_000_000_000_000i128,
                    0 <= s <= 1_000_000,
                    0 <= c <= 1_000_000,
            ;
        }
        if (ay as i128) * (s as i128) <= (ax as i128) * (c as i128) {
            lo = mid;
        } else {
            hi = mid;
        }
    }
    lo
}

/// The compass heading, in milli-degrees in [0, 360_000), that points from
/// the origin toward the offset (dx, dy): an approximate inverse tangent at
/// milli-degree resolution, exact on the four axes.
pub open spec fn atan2_spec(dx: int, dy: int) -> int {
    if dx == 0 && dy >= 0 {
        0
    } else if dx == 0 {
        180_000
    } else if dy == 0 {
        if dx > 0 {
            90_000
        } else {
            270_000
        }
    } else {
        let base = quadrant_search(crate::math::abs_val(dx), crate::math::abs_val(dy), 0, 90_000);
        if dx > 0 && dy > 0 {
            base
        } else if dx > 0 {
            180_000 - base
        } else if dy < 0 {
            180_000 + base
        } else if base == 0 {
            0
        } else {
            360_000 - base
        }
    }
}

pub fn atan2_compass(dx: i64, dy: i64) -> (r: i64)
    requires
        crate::math::abs_val(dx as int) <= 2 * (COORD_LIMIT as int),
        crate::math::abs_val(dy as int) <= 2 * (COORD_LIMIT as int),
    ensures
        r as int == atan2_spec(dx as int, dy as int),
        0 <= r < 360_000,
        dx == 0 && dy >= 0 ==> r == 0,
        dx > 0 && dy == 0 ==> r == 90_000,
        dx == 0 && dy < 0 ==> r == 180_000,
        dx < 0 && dy == 0 ==> r == 270_000,
        dx > 0 && dy > 0 ==> 0 <= r < 90_000,
        dx > 0 && dy < 0 ==> 90_000 < r <= 180_000,
        dx < 0 && dy < 0 ==> 180_000 <= r < 270_000,
        dx < 0 && dy > 0 ==> r == 0 || 270_000 < r < 360_000,
{
    if dx == 0 {
        if dy >= 0 {
            0
        } else {
            180_000
        }
    } else if dy == 0 {
        if dx > 0 {
            90_000
        } else {
            270_000
        }
    } else {
        let ax: i64 = if dx < 0 {
            -dx
        } else {
            dx
        };
        let ay: i64 = if dy < 0 {
            -dy
        } else {
            dy
        };
        let base: i64 = quadrant_angle(ax, ay);
        if dx > 0 && dy > 0 {
            base
        } else if dx > 0 {
            180_000 - base
        } else if dy < 0 {
            180_000 + base
        } else {
            let w: i64 = 360_000 - base;
            if w == 360_000 {
                0
            } else {
                w
            }
        }
    }
}

/// The interpolated first-quadrant sine lies within [0, TRIG_ONE].
pub proof fn lemma_sin_quadrant_range(md: int)
    requires
        0 <= md <= 90_000,
    ensures
        0 <= sin_quadrant(md) <= TRIG_ONE as int,
{
    let d = md / 1000;
    let f = md % 1000;
    let a = sin_table(d);
    let b = sin_table(d + 1);
    assert(0 <= a <= 1_000_000 && 0 <= b <= 1_000_000);
    if b >= a {
        assert(0 <= (b - a) * f <= (b - a) * 1000) by (nonlinear_arith)
            requires
                0 <= f < 1000,
                b >= a,
        ;
        assert(0 <= (b - a) * f / 1000 <= b - a) by (nonlinear_arith)
            requires
                0 <= (b - a) * f <= (b - a) * 1000,
        ;
    } else {
        assert((b - a) * 1000 <= (b - a) * f <= 0) by (nonlinear_arith)
            requires
                0 <= f < 1000,
                b < a,
        ;
        assert(b - a <= (b - a) * f / 1000 <= 0) by (nonlinear_arith)
            requires
                (b - a) * 1000 <= (b - a) * f <= 0,
        ;
    }
}

/// The sine's sign follows the compass: nonnegative east of north
/// (headings 0 to 180 degrees), nonpositive west of it (180 to 360).
pub proof fn lemma_sin_sign(h: int)
    requires
        0 <= h <= 360_000,
    ensures
        h <= 180_000 ==> sin_milli(h) >= 0,
        h >= 180_000 ==> sin_milli(h) <= 0,
        crate::math::abs_val(sin_milli(h)) <= TRIG_ONE as int,
{
    let n = norm_heading(h);
    if h < 360_000 {
        assert(n == h) by (nonlinear_arith)
            requires
                n == h % 360_000,
                0 <= h < 360_000,
        ;
    } else {
        assert(n == 0) by (nonlinear_arith)
            requires
                n == h % 360_000,
                h == 360_000,
        ;
    }
    assert(sin_quadrant(0) == sin_table(0int / 1000) + ((sin_table(0int / 1000 + 1) - sin_table(
        0int / 1000,
    )) * (0int % 1000)) / 1000);
    assert(sin_quadrant(0) == 0);
    if n <= 90_000 {
        lemma_sin_quadrant_range(n);
    } else if n <= 180_000 {
        lemma_sin_quadrant_range(180_000 - n);
    } else if n <= 270_000 {
        lemma_sin_quadrant_range(n - 180_000);
    } else {
        lemma_sin_quadrant_range(360_000 - n);
    }
}

/// The fixed-point sine and cosine are exact on the four cardinal
/// headings.
pub proof fn lemma_trig_cardinal()
    ensures
        sin_milli(0) == 0,
        cos_milli(0) == TRIG_ONE as int,
        sin_milli(90_000) == TRIG_ONE as int,
        cos_milli(90_000) == 0,
        sin_milli(180_000) == 0,
        cos_milli(180_000) == -(TRIG_ONE as int),
        sin_milli(270_000) == -(TRIG_ONE as int),
        cos_milli(270_000) == 0,
{
    assert(sin_quadrant(0) == sin_table(0int / 1000) + ((sin_table(0int / 1000 + 1) - sin_table(
        0int / 1000,
    )) * (0int % 1000)) / 1000);
    assert(sin_quadrant(0) == 0);
    assert(sin_quadrant(90_000) == sin_table(90_000int / 1000) + ((sin_table(
        90_000int / 1000 + 1,
    ) - sin_table(90_000int / 1000)) * (90_000int % 1000)) / 1000);
    assert(sin_table(90) == 1_000_000);
    assert(sin_table(91) == 1_000_000);
    assert(sin_quadrant(90_000) == 1_000_000);
    assert(norm_heading(0) == 0);
    assert(norm_heading(90_000) == 90_000);
    assert(norm_heading(180_000) == 180_000);
    assert(norm_heading(270_000) == 270_000);
    assert(sin_normalized(0) == sin_quadrant(0));
    assert(sin_normalized(90_000) == sin_quadrant(90_000));
    assert(sin_normalized(180_000) == sin_quadrant(0));
    assert(sin_normalized(270_000) == -sin_quadrant(90_000));
}

} // verus!
