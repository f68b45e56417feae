use vstd::prelude::*;
use vstd::arithmetic::power2::pow2;
use vstd::arithmetic::power2::lemma2_to64;
use vstd::arithmetic::power2::lemma2_to64_rest;
use vstd::arithmetic::power2::lemma_pow2_strictly_increases;
use vstd::arithmetic::power2::lemma_pow2_unfold;
use vstd::arithmetic::power2::lemma_pow2_pos;
use crate::frame::abs;
use crate::frame::GeocentricEquatorial;
use crate::frame::COORD_LIMIT;

verus! {

/// Fixed-point resolution of angles: one unit is 10^-9 degree.
pub const ANGLE_UNITS_PER_DEGREE: i64 = 1_000_000_000;

/// A right angle, a half turn and a full turn, in angle units.
pub const QUARTER_TURN: i64 = 90_000_000_000;

pub const FULL_TURN: i64 = 360_000_000_000;

/// Number of micro-rotations of the vectoring loop.
pub const VECTORING_STEPS: usize = 37;

/// `atan(2^-i)` in angle units, rounded, for the micro-rotation `i`.
pub open spec fn atan_step(i: int) -> int {
    if i == 0 {
        45_000_000_000
    } else if i == 1 {
        26_565_051_177
    } else if i == 2 {
        14_036_243_468
    } else if i == 3 {
        7_125_016_349
    } else if i == 4 {
        3_576_334_375
    } else if i == 5 {
        1_789_910_608
    } else if i == 6 {
        895_173_710
    } else if i == 7 {
        447_614_171
    } else if i == 8 {
        223_810_500
    } else if i == 9 {
        111_905_677
    } else if i == 10 {
        55_952_892
    } else if i == 11 {
        27_976_453
    } else if i == 12 {
        13_988_227
    } else if i == 13 {
        6_994_114
    } else if i == 14 {
        3_497_057
    } else if i == 15 {
        1_748_528
    } else if i == 16 {
        874_264
    } else if i == 17 {
        437_132
    } else if i == 18 {
        218_566
    } else if i == 19 {
        109_283
    } else if i == 20 {
        54_642
    } else if i == 21 {
        27_321
    } else if i == 22 {
        13_660
    } else if i == 23 {
        6_830
    } else if i == 24 {
        3_415
    } else if i == 25 {
        1_708
    } else if i == 26 {
        854
    } else if i == 27 {
        427
    } else if i == 28 {
        213
    } else if i == 29 {
        107
    } else if i == 30 {
        53
    } else if i == 31 {
        27
    } else if i == 32 {
        13
    } else if i == 33 {
        7
    } else if i == 34 {
        3
    } else if i == 35 {
        2
    } else if i == 36 {
        1
    } else {
        0
    }
}

fn atan_step_exec(i: usize) -> (r: i64)
    requires
        i < VECTORING_STEPS,
    ensures
        r == atan_step(i as int),
{
    match i {
        0 => 45_000_000_000,
        1 => 26_565_051_177,
        2 => 14_036_243_468,
        3 => 7_125_016_349,
        4 => 3_576_334_375,
        5 => 1_789_910_608,
        6 => 895_173_710,
        7 => 447_614_171,
        8 => 223_810_500,
        9 => 111_905_677,
        10 => 55_952_892,
        11 => 27_976_453,
        12 => 13_988_227,
        13 => 6_994_114,
        14 => 3_497_057,
        15 => 1_748_528,
        16 => 874_264,
        17 => 437_132,
        18 => 218_566,
        19 => 109_283,
        20 => 54_642,
        21 => 27_321,
        22 => 13_660,
        23 => 6_830,
        24 => 3_415,
        25 => 1_708,
        26 => 854,
        27 => 427,
        28 => 213,
        29 => 107,
        30 => 53,
        31 => 27,
        32 => 13,
        33 => 7,
        34 => 3,
        35 => 2,
        36 => 1,
        _ => 0,
    }
}

/// Sum of the first `n` micro-rotation angles.
pub open spec fn steps_total(n: int) -> int
    decreases n,
{
    if n <= 0 {
        0
    } else {
        steps_total(n - 1) + atan_step(n - 1)
    }
}

/// The angle by which the micro-rotations from `i` on turn `(x, y)` towards
/// the positive x axis: each step turns by `atan(2^-i)`, clockwise while
/// `y >= 0`, and adds or takes that angle off.
pub open spec fn vectoring_angle(x: int, y: int, i: nat) -> int
    decreases VECTORING_STEPS - i,
{
    if i >= VECTORING_STEPS {
        0
    } else if y >= 0 {
        atan_step(i as int) + vectoring_angle(x + y / pow2(i) as int, y - x / pow2(i) as int, i + 1)
    } else {
        -atan_step(i as int) + vectoring_angle(x + (-y) / pow2(i) as int, y + x / pow2(i) as int, i + 1)
    }
}

/// Magnitude (sum of the absolute values) to which small vectors are
/// doubled before the micro-rotations, so that they keep their precision.
pub const LIFT_LEVEL: i128 = 0x2000_0000_0000_0000;

/// `(x, y)` doubled, at most `k` times, until `|x| + |y|` reaches `LIFT_LEVEL`.
pub open spec fn lift(x: int, y: int, k: nat) -> (int, int)
    decreases k,
{
    if k == 0 || abs(x) + abs(y) >= LIFT_LEVEL {
        (x, y)
    } else {
        lift(2 * x, 2 * y, (k - 1) as nat)
    }
}

/// The direction of `(x, y)` in angle units, in `(-180, 180]` degrees up to
/// the loop's precision; 0 for the zero vector. The vector is first scaled
/// up, and one in the left half plane turned by a right angle into the
/// right one.
pub open spec fn atan2_spec(y: int, x: int) -> int {
    let (lx, ly) = lift(x, y, 64);
    if x == 0 && y == 0 {
        0
    } else if lx < 0 {
        if ly >= 0 {
            QUARTER_TURN + vectoring_angle(ly, -lx, 0)
        } else {
            -QUARTER_TURN + vectoring_angle(-ly, lx, 0)
        }
    } else {
        vectoring_angle(lx, ly, 0)
    }
}

proof fn lemma_steps_total()
    ensures
        steps_total(VECTORING_STEPS as int) == 99_882_965_834,
{
    reveal_with_fuel(steps_total, 38);
}

proof fn lemma_steps_total_le(k: int)
    requires
        0 <= k <= VECTORING_STEPS,
    ensures
        0 <= steps_total(k) <= steps_total(VECTORING_STEPS as int),
    decreases VECTORING_STEPS - k,
{
    if k < VECTORING_STEPS {
        lemma_steps_total_le(k + 1);
    }
    lemma_steps_total_nonneg(k);
}

proof fn lemma_steps_total_nonneg(k: int)
    ensures
        0 <= steps_total(k),
    decreases k,
{
    if k > 0 {
        lemma_steps_total_nonneg(k - 1);
    }
}

/// Runs the micro-rotations on `(x, y)` with `x >= 0`.
fn vectoring(x0: i128, y0: i128) -> (r: i64)
    requires
        0 <= x0 <= 0x8000_0000_0000_0000,
        -0x8000_0000_0000_0000 <= y0 <= 0x8000_0000_0000_0000,
    ensures
        r == vectoring_angle(x0 as int, y0 as int, 0),
        abs(r as int) <= 99_882_965_834,
{
    let mut x = x0;
    let mut y = y0;
    let mut acc: i64 = 0;
    let mut p: i128 = 1;
    let mut i: usize = 0;
    proof {
        lemma2_to64();
        lemma2_to64_rest();
        lemma_steps_total();
    }
    while i < VECTORING_STEPS
        invariant
            i <= VECTORING_STEPS,
            p == pow2(i as nat),
            0 <= x,
            x + abs(y as int) <= 0x1_0000_0000_0000_0000 * p,
            acc + vectoring_angle(x as int, y as int, i as nat) == vectoring_angle(x0 as int, y0 as int, 0),
            abs(acc as int) <= steps_total(i as int),
            steps_total(VECTORING_STEPS as int) == 99_882_965_834,
        decreases VECTORING_STEPS - i,
    {
        proof {
            lemma2_to64_rest();
            lemma_pow2_strictly_increases(i as nat, 37);
            lemma_pow2_unfold((i + 1) as nat);
            lemma_pow2_pos(i as nat);
            lemma_steps_total_le(i as int);
            lemma_steps_total_le(i as int + 1);
        }
        let a = atan_step_exec(i);
        let xs = x / p;
        if y >= 0 {
            let ys = y / p;
            assert(0 <= ys <= y && 0 <= xs <= x) by (nonlinear_arith)
                requires
                    ys as int == (y as int) / (p as int),
                    xs as int == (x as int) / (p as int),
                    y >= 0,
                    x >= 0,
                    p >= 1,
            ;
            x = x + ys;
            y = y - xs;
            acc = acc + a;
        } else {
            let ys = (-y) / p;
            assert(0 <= ys <= -y && 0 <= xs <= x) by (nonlinear_arith)
                requires
                    ys as int == (-(y as int)) / (p as int),
                    xs as int == (x as int) / (p as int),
                    y < 0,
                    x >= 0,
                    p >= 1,
            ;
            x = x + ys;
            y = y + xs;
            acc = acc - a;
        }
        p = p * 2;
        i = i + 1;
    }
    acc
}

fn abs_wide(a: i128) -> (r: i128)
    requires
        a > i128::MIN,
    ensures
        r == abs(a as int),
{
    if a < 0 {
        -a
    } else {
        a
    }
}

/// Direction of `(x, y)`: `atan2(y, x)` in angle units, 0 for the zero vector.
pub fn atan2(y: i64, x: i64) -> (r: i64)
    ensures
        r == atan2_spec(y as int, x as int),
        abs(r as int) <= QUARTER_TURN + 99_882_965_834,
        x >= 0 ==> abs(r as int) <= 99_882_965_834,
{
    if x == 0 && y == 0 {
        return 0;
    }
    let mut lx = x as i128;
    let mut ly = y as i128;
    let mut k: u32 = 64;
    while k > 0 && abs_wide(lx) + abs_wide(ly) < LIFT_LEVEL
        invariant
            lift(lx as int, ly as int, k as nat) == lift(x as int, y as int, 64),
            -0x8000_0000_0000_0000 <= lx <= 0x8000_0000_0000_0000,
            -0x8000_0000_0000_0000 <= ly <= 0x8000_0000_0000_0000,
            lx < 0 <==> x < 0,
        decreases k,
    {
        lx = 2 * lx;
        ly = 2 * ly;
        k = k - 1;
    }
    if lx < 0 {
        if ly >= 0 {
            QUARTER_TURN + vectoring(ly, -lx)
        } else {
            -QUARTER_TURN + vectoring(-ly, lx)
        }
    } else {
        vectoring(lx, ly)
    }
}

/// A position on the sky, in angle units: right ascension in `[0, 360)`
/// degrees, declination in `[-90, 90]` degrees.
#[derive(Clone, Copy, Debug, PartialEq, Eq, Structural)]
pub struct SphericalPosition {
    pub right_ascension: i64,
    pub declination: i64,
}

/// `s` is the integer square root of `n`.
pub open spec fn is_isqrt(s: int, n: int) -> bool {
    0 <= s && s * s <= n < (s + 1) * (s + 1)
}

/// Length of the projection of `(x, y, z)` on the equatorial plane, rounded down.
pub open spec fn planar_norm(x: int, y: int) -> int {
    choose|s: int| #[trigger] is_isqrt(s, x * x + y * y)
}

proof fn lemma_isqrt_unique(s: int, t: int, n: int)
    requires
        is_isqrt(s, n),
        is_isqrt(t, n),
    ensures
        s == t,
{
    if s < t {
        assert((s + 1) * (s + 1) <= t * t) by (nonlinear_arith)
            requires
                0 <= s + 1 <= t,
        ;
    } else if t < s {
        assert((t + 1) * (t + 1) <= s * s) by (nonlinear_arith)
            requires
                0 <= t + 1 <= s,
        ;
    }
}

proof fn lemma_vectoring_angle_bound(x: int, y: int, i: nat)
    requires
        i <= VECTORING_STEPS,
    ensures
        abs(vectoring_angle(x, y, i)) <= steps_total(VECTORING_STEPS as int) - steps_total(i as int),
    decreases VECTORING_STEPS - i,
{
    if i < VECTORING_STEPS {
        let p = pow2(i) as int;
        lemma_vectoring_angle_bound(x + y / p, y - x / p, i + 1);
        lemma_vectoring_angle_bound(x + (-y) / p, y + x / p, i + 1);
        assert(steps_total(i + 1 as int) == steps_total(i as int) + atan_step(i as int));
        assert(atan_step(i as int) >= 0);
    }
}

/// Whatever the vector, the right ascension lies in `[0, 360)` degrees and
/// the declination in `[-90, 90]`; at the poles (x = y = 0) the right
/// ascension is 0.
pub proof fn lemma_spherical_ranges(x: int, y: int, z: int)
    ensures
        0 <= right_ascension_spec(x, y) < FULL_TURN,
        -QUARTER_TURN <= declination_spec(x, y, z) <= QUARTER_TURN,
        x == 0 && y == 0 ==> right_ascension_spec(x, y) == 0,
{
    let (lx, ly) = lift(x, y, 64);
    lemma_steps_total();
    lemma_steps_total_nonneg(0);
    lemma_vectoring_angle_bound(ly, -lx, 0);
    lemma_vectoring_angle_bound(-ly, lx, 0);
    lemma_vectoring_angle_bound(lx, ly, 0);
}

/// Integer square root, by bisection.
fn isqrt(n: u128) -> (r: u64)
    requires
        n < 0x4000_0000_0000_0000_0000_0000_0000_0000,
    ensures
        is_isqrt(r as int, n as int),
{
    let mut lo: u128 = 0;
    let mut hi: u128 = 0x8000_0000_0000_0000;
    assert(hi * hi == 0x4000_0000_0000_0000_0000_0000_0000_0000);
    while lo + 1 < hi
        invariant
            lo < hi <= 0x8000_0000_0000_0000,
            lo * lo <= n < hi * hi,
        decreases hi - lo,
    {
        let mid = lo + (hi - lo) / 2;
        assert(mid * mid <= 0x4000_0000_0000_0000_0000_0000_0000_0000) by (nonlinear_arith)
            requires
                mid < 0x8000_0000_0000_0000,
        ;
        if mid * mid <= n {
            lo = mid;
        } else {
            hi = mid;
        }
    }
    lo as u64
}

/// Right ascension of the direction `(x, y)`: `atan2(y, x)`, a full turn
/// added when negative; 0 at the poles, where x = y = 0.
pub open spec fn right_ascension_spec(x: int, y: int) -> int {
    if x == 0 && y == 0 {
        0
    } else if atan2_spec(y, x) < 0 {
        atan2_spec(y, x) + FULL_TURN
    } else {
        atan2_spec(y, x)
    }
}

/// An angle held to `[-90, 90]` degrees.
pub open spec fn clamp_quarter(a: int) -> int {
    if a > QUARTER_TURN {
        QUARTER_TURN as int
    } else if a < -QUARTER_TURN {
        -QUARTER_TURN
    } else {
        a
    }
}

/// Declination: `atan2(z, sqrt(x^2 + y^2))`, held to `[-90, 90]` degrees.
pub open spec fn declination_spec(x: int, y: int, z: int) -> int {
    clamp_quarter(atan2_spec(z, planar_norm(x, y)))
}

/// Right ascension and declination of a geocentric equatorial position.
pub fn to_spherical(v: GeocentricEquatorial) -> (r: SphericalPosition)
    requires
        v.pos.bounded_by(2 * COORD_LIMIT),
    ensures
        r.right_ascension == right_ascension_spec(v.pos.x as int, v.pos.y as int),
        r.declination == declination_spec(v.pos.x as int, v.pos.y as int, v.pos.z as int),
        0 <= r.right_ascension < FULL_TURN,
        -QUARTER_TURN <= r.declination <= QUARTER_TURN,
{
    let x = v.pos.x;
    let y = v.pos.y;
    let z = v.pos.z;
    let xw = x as i128;
    let yw = y as i128;
    assert(0 <= xw * xw <= 0x1000_0000_0000_0000_0000_0000_0000_0000
        && 0 <= yw * yw <= 0x1000_0000_0000_0000_0000_0000_0000_0000) by (nonlinear_arith)
        requires
            -0x4000_0000_0000_0000 <= xw <= 0x4000_0000_0000_0000,
            -0x4000_0000_0000_0000 <= yw <= 0x4000_0000_0000_0000,
    ;
    let n = (xw * xw + yw * yw) as u128;
    let s = isqrt(n);
    proof {
        let t = planar_norm(x as int, y as int);
        assert(is_isqrt(s as int, x * x + y * y));
        assert(is_isqrt(t, x * x + y * y));
        lemma_isqrt_unique(s as int, t, x * x + y * y);
        assert(s * s <= 0x2000_0000_0000_0000_0000_0000_0000_0000);
        assert(s < 0x8000_0000_0000_0000) by (nonlinear_arith)
            requires
                s * s <= 0x2000_0000_0000_0000_0000_0000_0000_0000,
                s >= 0,
        ;
    }
    let d = atan2(z, s as i64);
    let declination = if d > QUARTER_TURN {
        QUARTER_TURN
    } else if d < -QUARTER_TURN {
        -QUARTER_TURN
    } else {
        d
    };
    let right_ascension = if x == 0 && y == 0 {
        0
    } else {
        let a = atan2(y, x);
        if a < 0 {
            a + FULL_TURN
        } else {
            a
        }
    };
    SphericalPosition { right_ascension, declination }
}

} // verus!
