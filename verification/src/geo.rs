//! Great-circle geometry in fixed-point integers.
//!
//! Coordinates are microdegrees (millionths of a degree): latitudes lie
//! in [-90_000_000, 90_000_000], longitudes in [-180_000_000,
//! 180_000_000].  Angles are nanoradians, unit fractions are scaled by
//! `SCALE`, and distances are metres on a sphere of radius 6372.8 km.
//!
//! `distance_m` evaluates the haversine formula: with `dphi` the
//! latitude difference and `dlam` the longitude difference,
//! `a = sin^2(dphi/2) + cos(lat1) * cos(lat2) * sin^2(dlam/2)` and the
//! distance is `2 * R * asin(sqrt(a))`.  The sine is a clamped Taylor
//! polynomial on [0, pi/2]; `asin(sqrt(a))` is recovered by bisecting
//! the angle whose squared sine is `a`.  Every executable step returns
//! exactly the value of its specification twin, so the range decision
//! `in_range` is pinned down to a single integer function of the four
//! coordinates.

use vstd::arithmetic::div_mod::{
    lemma_basic_div, lemma_div_by_multiple, lemma_div_is_ordered, lemma_div_pos_is_pos,
};
use vstd::prelude::*;

verus! {

/// Microdegrees per degree.
pub const MICRO_PER_DEGREE: i64 = 1_000_000;

/// Fixed-point scale: nanoradians per radian, and the denominator of
/// unit fractions such as sine values.
pub const SCALE: u64 = 1_000_000_000;

/// pi in nanoradians, rounded.
pub const PI_NANO: u64 = 3_141_592_654;

/// pi/2 in nanoradians, rounded.
pub const HALF_PI_NANO: u64 = 1_570_796_327;

/// Sphere radius in metres (6372.8 km).
pub const EARTH_RADIUS_M: u64 = 6_372_800;

/// Rectangular pre-filter window: 0.1 degrees, in microdegrees.
pub const RANGE_LATLON_MICRO: i64 = 100_000;

/// Broadcast radius: 10 km, in metres.
pub const RANGE_M: u64 = 10_000;

/// Numerator of the microdegree-to-nanoradian conversion:
/// pi / 180e6 * 1e9 = 17.4532925..., written as a ratio.
pub const RAD_NUM: u64 = 174_532_925;

/// Denominator of the microdegree-to-nanoradian conversion.
pub const RAD_DEN: u64 = 10_000_000;

/// A latitude in microdegrees that lies on the globe.
pub open spec fn valid_lat(lat: int) -> bool {
    -90_000_000 <= lat <= 90_000_000
}

/// A longitude in microdegrees that lies on the globe.
pub open spec fn valid_lon(lon: int) -> bool {
    -180_000_000 <= lon <= 180_000_000
}

/// Absolute difference of two coordinates.
pub open spec fn abs_diff(a: int, b: int) -> int {
    if a >= b {
        a - b
    } else {
        b - a
    }
}

/// Nanoradians of a nonnegative microdegree angle.
pub open spec fn rad_nano_spec(micro: int) -> int {
    (micro * RAD_NUM as int) / RAD_DEN as int
}

/// Clamped Taylor polynomial for sin on [0, pi/2], in `SCALE` units:
/// x - x^3/6 + x^5/120 - x^7/5040, cut off to [0, SCALE].
pub open spec fn sin_poly_spec(x: int) -> int
    recommends
        0 <= x <= HALF_PI_NANO as int,
{
    let s = SCALE as int;
    let x2 = (x * x) / s;
    let x3 = (x2 * x) / s;
    let x5 = (x3 * x2) / s;
    let x7 = (x5 * x2) / s;
    let pos = x + x5 / 120;
    let neg = x3 / 6 + x7 / 5040;
    if pos <= neg {
        0
    } else if pos - neg > s {
        s
    } else {
        pos - neg
    }
}

/// Sine of an angle in [0, pi], reduced onto [0, pi/2].
pub open spec fn sin_angle_spec(x: int) -> int
    recommends
        0 <= x <= PI_NANO as int,
{
    if x > HALF_PI_NANO as int {
        sin_poly_spec(PI_NANO as int - x)
    } else {
        sin_poly_spec(x)
    }
}

/// Cosine of a latitude given in microdegrees, as sin(pi/2 - |lat|).
pub open spec fn cos_lat_spec(lat: int) -> int
    recommends
        valid_lat(lat),
{
    sin_poly_spec(HALF_PI_NANO as int - rad_nano_spec(abs_diff(lat, 0)))
}

/// The haversine sum `a`, scaled by `SCALE * SCALE`:
/// sin^2(dphi/2) + cos(lat1) * cos(lat2) * sin^2(dlam/2).
pub open spec fn hav_sum_spec(lat1: int, lon1: int, lat2: int, lon2: int) -> int
    recommends
        valid_lat(lat1) && valid_lon(lon1) && valid_lat(lat2) && valid_lon(lon2),
{
    let s = SCALE as int;
    let s1 = sin_poly_spec(rad_nano_spec(abs_diff(lat1, lat2)) / 2);
    let s2 = sin_angle_spec(rad_nano_spec(abs_diff(lon1, lon2)) / 2);
    let c1 = cos_lat_spec(lat1);
    let c2 = cos_lat_spec(lat2);
    s1 * s1 + ((c1 * c2) / s) * (s2 * s2) / s
}

/// Bisection for the angle in [lo, hi] whose squared sine is `a`
/// (`a` in `SCALE * SCALE` units), with `n` halving steps.
pub open spec fn bisect_spec(a: int, lo: int, hi: int, n: nat) -> int
    decreases n,
{
    if n == 0 {
        lo
    } else {
        let mid = lo + (hi - lo) / 2;
        if sin_poly_spec(mid) * sin_poly_spec(mid) < a {
            bisect_spec(a, mid, hi, (n - 1) as nat)
        } else {
            bisect_spec(a, lo, mid, (n - 1) as nat)
        }
    }
}

/// The half central angle asin(sqrt(a)) in nanoradians.
pub open spec fn theta_spec(a: int) -> int {
    let s = SCALE as int;
    if a <= 0 {
        0
    } else if a >= s * s {
        HALF_PI_NANO as int
    } else {
        bisect_spec(a, 0, HALF_PI_NANO as int, 32)
    }
}

/// Great-circle distance in metres between two coordinate pairs.
pub open spec fn distance_m_spec(lat1: int, lon1: int, lat2: int, lon2: int) -> int
    recommends
        valid_lat(lat1) && valid_lon(lon1) && valid_lat(lat2) && valid_lon(lon2),
{
    let theta = theta_spec(hav_sum_spec(lat1, lon1, lat2, lon2));
    (2 * EARTH_RADIUS_M as int * theta) / SCALE as int
}

/// The rectangular pre-filter: both coordinate differences are
/// strictly inside the window.
pub open spec fn within_window_spec(
    lat1: int,
    lon1: int,
    lat2: int,
    lon2: int,
    window: int,
) -> bool {
    abs_diff(lat1, lat2) < window && abs_diff(lon1, lon2) < window
}

/// The range decision: pre-filter with the 0.1 degree window, then
/// haversine distance strictly under the 10 km radius.
pub open spec fn in_range_spec(lat1: int, lon1: int, lat2: int, lon2: int) -> bool {
    within_window_spec(lat1, lon1, lat2, lon2, RANGE_LATLON_MICRO as int)
        && distance_m_spec(lat1, lon1, lat2, lon2) < RANGE_M as int
}

/// A latitude clamped onto the globe.
pub open spec fn clamp_lat_spec(v: int) -> int {
    if v < -90_000_000 {
        -90_000_000
    } else if v > 90_000_000 {
        90_000_000
    } else {
        v
    }
}

/// A longitude clamped onto the globe.
pub open spec fn clamp_lon_spec(v: int) -> int {
    if v < -180_000_000 {
        -180_000_000
    } else if v > 180_000_000 {
        180_000_000
    } else {
        v
    }
}

/// Clamps a latitude onto the globe.
pub fn clamp_lat(v: i64) -> (r: i64)
    ensures
        r == clamp_lat_spec(v as int),
        valid_lat(r as int),
{
    if v < -90_000_000 {
        -90_000_000
    } else if v > 90_000_000 {
        90_000_000
    } else {
        v
    }
}

/// Clamps a longitude onto the globe.
pub fn clamp_lon(v: i64) -> (r: i64)
    ensures
        r == clamp_lon_spec(v as int),
        valid_lon(r as int),
{
    if v < -180_000_000 {
        -180_000_000
    } else if v > 180_000_000 {
        180_000_000
    } else {
        v
    }
}

/// Haversine distance is symmetric: swapping the two coordinate pairs
/// leaves the computed distance unchanged, for every pair of points.
pub proof fn lemma_distance_symmetric(lat1: int, lon1: int, lat2: int, lon2: int)
    ensures
        distance_m_spec(lat1, lon1, lat2, lon2) == distance_m_spec(lat2, lon2, lat1, lon1),
{
    assert(abs_diff(lat1, lat2) == abs_diff(lat2, lat1));
    assert(abs_diff(lon1, lon2) == abs_diff(lon2, lon1));
    let c1 = cos_lat_spec(lat1);
    let c2 = cos_lat_spec(lat2);
    assert(c1 * c2 == c2 * c1) by (nonlinear_arith);
    assert(hav_sum_spec(lat1, lon1, lat2, lon2) == hav_sum_spec(lat2, lon2, lat1, lon1));
}

/// Two users at identical coordinates are always in range: the
/// distance of a point to itself is zero.
pub proof fn lemma_identical_in_range(lat: int, lon: int)
    ensures
        distance_m_spec(lat, lon, lat, lon) == 0,
        in_range_spec(lat, lon, lat, lon),
{
    assert(abs_diff(lat, lat) == 0);
    assert(abs_diff(lon, lon) == 0);
    assert(rad_nano_spec(0) == 0);
    assert(sin_poly_spec(0) == 0);
    assert(sin_angle_spec(0) == 0);
    let s = SCALE as int;
    let c1 = cos_lat_spec(lat);
    let c2 = cos_lat_spec(lat);
    let q = (c1 * c2) / s;
    assert(0 * 0 == 0) by (nonlinear_arith);
    assert(q * 0 / s == 0) by (nonlinear_arith)
        requires
            s == 1_000_000_000,
    ;
    assert(hav_sum_spec(lat, lon, lat, lon) == 0);
    assert(theta_spec(0) == 0);
}

/// Points whose latitude or longitude differ by the window or more are
/// never in range: the rectangular pre-filter already rejects them.
/// In particular two points on the same meridian at least 0.1 degrees
/// of latitude apart (about 11.1 km) are never in range.
pub proof fn lemma_outside_window_not_in_range(lat1: int, lon1: int, lat2: int, lon2: int)
    requires
        abs_diff(lat1, lat2) >= RANGE_LATLON_MICRO as int || abs_diff(lon1, lon2)
            >= RANGE_LATLON_MICRO as int,
    ensures
        !in_range_spec(lat1, lon1, lat2, lon2),
{
}

/// Points whose computed distance reaches the radius are never in
/// range, whatever the window says.
pub proof fn lemma_beyond_radius_not_in_range(lat1: int, lon1: int, lat2: int, lon2: int)
    requires
        distance_m_spec(lat1, lon1, lat2, lon2) >= RANGE_M as int,
    ensures
        !in_range_spec(lat1, lon1, lat2, lon2),
{
}

/// The sine polynomial never returns a negative value.
proof fn lemma_sin_poly_nonneg(x: int)
    ensures
        sin_poly_spec(x) >= 0,
{
}

/// On [0, pi/2] the sine polynomial never exceeds its argument: the
/// positive correction term is dominated by the cubic one.
proof fn lemma_sin_poly_le_x(x: int)
    requires
        0 <= x <= HALF_PI_NANO as int,
    ensures
        sin_poly_spec(x) <= x,
{
    let s = SCALE as int;
    let x2 = (x * x) / s;
    let x3 = (x2 * x) / s;
    let x5 = (x3 * x2) / s;
    let x7 = (x5 * x2) / s;
    assert(0 <= x * x <= 2_470_000_000_000_000_000) by (nonlinear_arith)
        requires
            0 <= x <= 1_570_796_327,
    ;
    lemma_div_pos_is_pos(x * x, s);
    lemma_div_is_ordered(x * x, 2_470_000_000_000_000_000, s);
    assert(0 <= x2 * x) by (nonlinear_arith)
        requires
            0 <= x2,
            0 <= x,
    ;
    lemma_div_pos_is_pos(x2 * x, s);
    assert(0 <= x3 * x2) by (nonlinear_arith)
        requires
            0 <= x3,
            0 <= x2,
    ;
    assert(x3 * x2 <= x3 * 3_000_000_000) by (nonlinear_arith)
        requires
            0 <= x3,
            x2 <= 2_470_000_000,
    ;
    lemma_div_pos_is_pos(x3 * x2, s);
    lemma_div_is_ordered(x3 * x2, x3 * 3_000_000_000, s);
    assert(x3 * 3_000_000_000 == (3 * x3) * s) by (nonlinear_arith)
        requires
            s == 1_000_000_000,
    ;
    lemma_div_by_multiple(3 * x3, s);
    assert(x5 <= 3 * x3);
    lemma_div_is_ordered(x5, 3 * x3, 120);
    assert((3 * x3) / 120 <= x3 / 6);
    assert(0 <= x5 * x2) by (nonlinear_arith)
        requires
            0 <= x5,
            0 <= x2,
    ;
    lemma_div_pos_is_pos(x5 * x2, s);
    lemma_div_pos_is_pos(x7, 5040);
    lemma_div_pos_is_pos(x3, 6);
}

/// Up to about 0.05 radians every higher Taylor term underflows the
/// fixed point entirely, so the sine polynomial is the identity
/// there.
proof fn lemma_sin_poly_small_exact(x: int)
    requires
        0 <= x <= 872_664,
    ensures
        sin_poly_spec(x) == x,
{
    let s = SCALE as int;
    let x2 = (x * x) / s;
    assert(0 <= x * x <= 761_542_456_896) by (nonlinear_arith)
        requires
            0 <= x <= 872_664,
    ;
    lemma_div_pos_is_pos(x * x, s);
    lemma_div_is_ordered(x * x, 761_542_456_896, s);
    assert(0 <= x2 * x <= 665_000_000) by (nonlinear_arith)
        requires
            0 <= x2 <= 761,
            0 <= x <= 872_664,
    ;
    lemma_basic_div(x2 * x, s);
    let x3 = (x2 * x) / s;
    assert(x3 == 0);
    assert(x3 * x2 == 0) by (nonlinear_arith)
        requires
            x3 == 0,
    ;
    let x5 = (x3 * x2) / s;
    assert(x5 == 0);
    assert(x5 * x2 == 0) by (nonlinear_arith)
        requires
            x5 == 0,
    ;
    let x7 = (x5 * x2) / s;
    assert(x7 == 0);
}

/// The interval width after `n` halvings, each rounding up.
spec fn shrink(w: int, n: nat) -> int
    decreases n,
{
    if n == 0 {
        w
    } else {
        shrink((w + 1) / 2, (n - 1) as nat)
    }
}

proof fn lemma_shrink_monotone(w1: int, w2: int, n: nat)
    requires
        w1 <= w2,
    ensures
        shrink(w1, n) <= shrink(w2, n),
    decreases n,
{
    if n > 0 {
        lemma_div_is_ordered(w1 + 1, w2 + 1, 2);
        lemma_shrink_monotone((w1 + 1) / 2, (w2 + 1) / 2, (n - 1) as nat);
    }
}

/// Bisection keeps a bracket: it returns a point whose squared sine
/// is below `a`, with a point at most the final interval width above
/// it whose squared sine reaches `a`.
proof fn lemma_bisect_bracket(a: int, lo: int, hi: int, n: nat)
    requires
        0 <= lo <= hi <= HALF_PI_NANO as int,
        sin_poly_spec(lo) * sin_poly_spec(lo) < a,
        sin_poly_spec(hi) * sin_poly_spec(hi) >= a,
    ensures
        lo <= bisect_spec(a, lo, hi, n) <= hi,
        ({
            let r = bisect_spec(a, lo, hi, n);
            exists|h: int|
                r < h <= hi && h - r <= shrink(hi - lo, n) && (#[trigger] sin_poly_spec(h))
                    * sin_poly_spec(h) >= a
        }),
    decreases n,
{
    let r = bisect_spec(a, lo, hi, n);
    if n == 0 {
        assert(lo < hi);
        assert(r < hi && hi - r <= shrink(hi - lo, 0) && sin_poly_spec(hi) * sin_poly_spec(hi)
            >= a);
    } else {
        let mid = lo + (hi - lo) / 2;
        assert(hi - mid <= (hi - lo + 1) / 2);
        assert(mid - lo <= (hi - lo + 1) / 2);
        if sin_poly_spec(mid) * sin_poly_spec(mid) < a {
            lemma_bisect_bracket(a, mid, hi, (n - 1) as nat);
            let r1 = bisect_spec(a, mid, hi, (n - 1) as nat);
            assert(r == r1);
            let h = choose|h: int|
                r1 < h <= hi && h - r1 <= shrink(hi - mid, (n - 1) as nat) && (
                #[trigger] sin_poly_spec(h)) * sin_poly_spec(h) >= a;
            lemma_shrink_monotone(hi - mid, (hi - lo + 1) / 2, (n - 1) as nat);
            assert(h - r <= shrink(hi - lo, n));
        } else {
            lemma_bisect_bracket(a, lo, mid, (n - 1) as nat);
            let r1 = bisect_spec(a, lo, mid, (n - 1) as nat);
            assert(r == r1);
            let h = choose|h: int|
                r1 < h <= mid && h - r1 <= shrink(mid - lo, (n - 1) as nat) && (
                #[trigger] sin_poly_spec(h)) * sin_poly_spec(h) >= a;
            lemma_shrink_monotone(mid - lo, (hi - lo + 1) / 2, (n - 1) as nat);
            assert(h - r <= shrink(hi - lo, n));
            assert(h <= hi);
        }
    }
}

/// Two points on the same meridian at least 0.089908 degrees of
/// latitude apart are never in range: that is the smallest whole
/// microdegree separation whose great-circle distance reaches the
/// 10 km radius, so past the radius the pair is always rejected,
/// by the distance check inside the window and by the pre-filter
/// beyond it.
#[verifier::rlimit(60)]
pub proof fn lemma_meridian_beyond_radius_not_in_range(lat1: int, lon1: int, lat2: int, lon2: int)
    requires
        valid_lat(lat1),
        valid_lat(lat2),
        lon1 == lon2,
        abs_diff(lat1, lat2) >= 89_908,
    ensures
        !in_range_spec(lat1, lon1, lat2, lon2),
{
    if abs_diff(lat1, lat2) >= RANGE_LATLON_MICRO as int {
        lemma_outside_window_not_in_range(lat1, lon1, lat2, lon2);
    } else {
        let s = SCALE as int;
        let dphi = abs_diff(lat1, lat2);
        let rad = rad_nano_spec(dphi);
        assert(89_908 * (RAD_NUM as int) <= dphi * (RAD_NUM as int));
        lemma_div_is_ordered(89_908 * (RAD_NUM as int), dphi * (RAD_NUM as int), RAD_DEN as int);
        assert(dphi * (RAD_NUM as int) <= 99_999 * (RAD_NUM as int));
        lemma_div_is_ordered(dphi * (RAD_NUM as int), 99_999 * (RAD_NUM as int), RAD_DEN as int);
        assert(1_569_190 <= rad <= 1_745_311);
        let half = rad / 2;
        assert(784_595 <= half <= 872_655);
        lemma_sin_poly_small_exact(half);
        let s1 = sin_poly_spec(half);
        assert(s1 == half);
        assert(rad_nano_spec(0) == 0);
        assert(sin_poly_spec(0) == 0);
        let c1 = cos_lat_spec(lat1);
        let c2 = cos_lat_spec(lat2);
        let q = (c1 * c2) / s;
        assert(0 * 0 == 0) by (nonlinear_arith);
        assert(q * 0 / s == 0) by (nonlinear_arith)
            requires
                s == 1_000_000_000,
        ;
        let a = hav_sum_spec(lat1, lon1, lat2, lon2);
        assert(a == half * half);
        assert(1 <= half * half < 761_600_000_000) by (nonlinear_arith)
            requires
                784_595 <= half <= 872_655,
        ;
        assert(a < s * s);
        let hp = HALF_PI_NANO as int;
        assert(1_570_796_327 * 1_570_796_327 == 2_467_401_100_916_690_929) by (nonlinear_arith);
        assert(2_467_401_100 * 1_570_796_327 == 3_875_784_585_115_759_700) by (nonlinear_arith);
        assert(3_875_784_585 * 2_467_401_100 == 9_563_115_148_392_043_500) by (nonlinear_arith);
        assert(9_563_115_148 * 2_467_401_100 == 23_596_040_835_601_862_800) by (nonlinear_arith);
        assert(sin_poly_spec(hp) == 999_843_102);
        assert(999_843_102 * 999_843_102 >= half * half) by (nonlinear_arith)
            requires
                0 <= half <= 872_655,
        ;
        assert(theta_spec(a) == bisect_spec(a, 0, hp, 32));
        lemma_bisect_bracket(a, 0, hp, 32);
        let r = bisect_spec(a, 0, hp, 32);
        let h = choose|h: int|
            r < h <= hp && h - r <= shrink(hp - 0, 32) && (#[trigger] sin_poly_spec(h))
                * sin_poly_spec(h) >= a;
        reveal_with_fuel(shrink, 33);
        assert(shrink(1_570_796_327, 32) == 1);
        lemma_sin_poly_le_x(h);
        lemma_sin_poly_nonneg(h);
        let sh = sin_poly_spec(h);
        assert(sh >= half) by (nonlinear_arith)
            requires
                sh * sh >= half * half,
                sh >= 0,
                half >= 0,
        ;
        assert(r >= h - 1);
        assert(r >= half - 1);
        assert(r >= 784_594);
        let d = distance_m_spec(lat1, lon1, lat2, lon2);
        assert(d == (12_745_600 * r) / s);
        assert(12_745_600 * 784_594 <= 12_745_600 * r);
        lemma_div_is_ordered((12_745_600 * 784_594) as int, 12_745_600 * r, s);
        assert((12_745_600 * 784_594) / 1_000_000_000 == 10_000);
        assert(d >= 10_000);
    }
}

/// Converts a nonnegative microdegree angle to nanoradians.
fn rad_nano(micro: u64) -> (r: u64)
    requires
        micro <= 360_000_000,
    ensures
        r == rad_nano_spec(micro as int),
        r <= 6_283_185_300,
{
    proof {
        assert((micro as int) * (RAD_NUM as int) <= 62_831_853_000_000_000) by (nonlinear_arith)
            requires
                micro <= 360_000_000,
        ;
    }
    let t: u128 = (micro as u128) * (RAD_NUM as u128);
    (t / (RAD_DEN as u128)) as u64
}

/// Clamped Taylor sine on [0, pi/2], in `SCALE` units.
fn sin_poly(x: u64) -> (r: u64)
    requires
        x <= HALF_PI_NANO,
    ensures
        r == sin_poly_spec(x as int),
        r <= SCALE,
{
    let s: u128 = SCALE as u128;
    let xl: u128 = x as u128;
    proof {
        assert((xl as int) * (xl as int) <= 2_560_000_000_000_000_000) by (nonlinear_arith)
            requires
                xl <= 1_600_000_000,
        ;
    }
    let xx: u128 = xl * xl;
    let x2: u128 = xx / s;
    proof {
        assert((x2 as int) * (xl as int) <= 4_160_000_000_000_000_000) by (nonlinear_arith)
            requires
                x2 <= 2_600_000_000,
                xl <= 1_600_000_000,
        ;
    }
    let x3: u128 = x2 * xl / s;
    proof {
        assert((x3 as int) * (x2 as int) <= 13_000_000_000_000_000_000) by (nonlinear_arith)
            requires
                x3 <= 5_000_000_000,
                x2 <= 2_600_000_000,
        ;
    }
    let x5: u128 = x3 * x2 / s;
    proof {
        assert((x5 as int) * (x2 as int) <= 33_800_000_000_000_000_000) by (nonlinear_arith)
            requires
                x5 <= 13_000_000_000,
                x2 <= 2_600_000_000,
        ;
    }
    let x7: u128 = x5 * x2 / s;
    let pos: u128 = xl + x5 / 120;
    let neg: u128 = x3 / 6 + x7 / 5040;
    if pos <= neg {
        0
    } else if pos - neg > s {
        SCALE
    } else {
        (pos - neg) as u64
    }
}

/// Sine of an angle in [0, pi], reduced onto [0, pi/2].
fn sin_angle(x: u64) -> (r: u64)
    requires
        x <= PI_NANO,
    ensures
        r == sin_angle_spec(x as int),
        r <= SCALE,
{
    if x > HALF_PI_NANO {
        sin_poly(PI_NANO - x)
    } else {
        sin_poly(x)
    }
}

/// Bisection for the angle whose squared sine is `a`.
fn bisect(a: u128, lo: u64, hi: u64, n: u64) -> (r: u64)
    requires
        lo <= hi,
        hi <= HALF_PI_NANO,
        n <= 32,
    ensures
        r == bisect_spec(a as int, lo as int, hi as int, n as nat),
        lo <= r <= hi,
    decreases n,
{
    if n == 0 {
        lo
    } else {
        let mid: u64 = lo + (hi - lo) / 2;
        let sm = sin_poly(mid);
        proof {
            assert((sm as int) * (sm as int) <= 1_000_000_000_000_000_000) by (nonlinear_arith)
                requires
                    sm <= 1_000_000_000,
            ;
        }
        let sq: u128 = (sm as u128) * (sm as u128);
        if sq < a {
            bisect(a, mid, hi, n - 1)
        } else {
            bisect(a, lo, mid, n - 1)
        }
    }
}

/// Absolute difference of two in-range coordinates.
fn abs_diff_exec(a: i64, b: i64) -> (r: u64)
    requires
        -180_000_000 <= a <= 180_000_000,
        -180_000_000 <= b <= 180_000_000,
    ensures
        r == abs_diff(a as int, b as int),
        r <= 360_000_000,
{
    if a >= b {
        (a - b) as u64
    } else {
        (b - a) as u64
    }
}

/// Great-circle distance in metres by the haversine formula.
pub fn distance_m(lat1: i64, lon1: i64, lat2: i64, lon2: i64) -> (d: u64)
    requires
        valid_lat(lat1 as int),
        valid_lon(lon1 as int),
        valid_lat(lat2 as int),
        valid_lon(lon2 as int),
    ensures
        d == distance_m_spec(lat1 as int, lon1 as int, lat2 as int, lon2 as int),
        d <= 21_000_000,
{
    let s: u128 = SCALE as u128;
    let dphi = abs_diff_exec(lat1, lat2);
    let dlam = abs_diff_exec(lon1, lon2);
    let s1 = sin_poly(rad_nano(dphi) / 2);
    let s2 = sin_angle(rad_nano(dlam) / 2);
    let c1 = sin_poly(HALF_PI_NANO - rad_nano(abs_diff_exec(lat1, 0)));
    let c2 = sin_poly(HALF_PI_NANO - rad_nano(abs_diff_exec(lat2, 0)));
    proof {
        assert((s1 as int) * (s1 as int) <= 1_000_000_000_000_000_000) by (nonlinear_arith)
            requires
                s1 <= 1_000_000_000,
        ;
        assert((s2 as int) * (s2 as int) <= 1_000_000_000_000_000_000) by (nonlinear_arith)
            requires
                s2 <= 1_000_000_000,
        ;
        assert((c1 as int) * (c2 as int) <= 1_000_000_000_000_000_000) by (nonlinear_arith)
            requires
                c1 <= 1_000_000_000,
                c2 <= 1_000_000_000,
        ;
    }
    let s1s: u128 = (s1 as u128) * (s1 as u128);
    let s2s: u128 = (s2 as u128) * (s2 as u128);
    let c1c2: u128 = (c1 as u128) * (c2 as u128) / s;
    proof {
        assert((c1c2 as int) * (s2s as int)
            <= 1_000_000_000_000_000_000_000_000_000) by (nonlinear_arith)
            requires
                c1c2 <= 1_000_000_000,
                s2s <= 1_000_000_000_000_000_000,
        ;
    }
    let cross: u128 = c1c2 * s2s;
    let a: u128 = s1s + cross / s;
    let theta: u64 = if a == 0 {
        0
    } else if a >= s * s {
        HALF_PI_NANO
    } else {
        bisect(a, 0, HALF_PI_NANO, 32)
    };
    let rr: u128 = 2 * (EARTH_RADIUS_M as u128);
    proof {
        assert((rr as int) * (theta as int) <= 20_021_000_000_000_000) by (nonlinear_arith)
            requires
                rr == 12_745_600,
                theta <= 1_570_796_327,
        ;
    }
    ((rr * (theta as u128)) / s) as u64
}

/// The rectangular pre-filter on two coordinate pairs.
pub fn within_window(lat1: i64, lon1: i64, lat2: i64, lon2: i64, window: i64) -> (r: bool)
    requires
        valid_lat(lat1 as int),
        valid_lon(lon1 as int),
        valid_lat(lat2 as int),
        valid_lon(lon2 as int),
    ensures
        r == within_window_spec(lat1 as int, lon1 as int, lat2 as int, lon2 as int, window as int),
{
    let dlat = abs_diff_exec(lat1, lat2);
    let dlon = abs_diff_exec(lon1, lon2);
    window >= 0 && dlat < window as u64 && dlon < window as u64
}

/// The full range decision: pre-filter, then haversine radius check.
pub fn in_range_coords(lat1: i64, lon1: i64, lat2: i64, lon2: i64) -> (r: bool)
    requires
        valid_lat(lat1 as int),
        valid_lon(lon1 as int),
        valid_lat(lat2 as int),
        valid_lon(lon2 as int),
    ensures
        r == in_range_spec(lat1 as int, lon1 as int, lat2 as int, lon2 as int),
{
    within_window(lat1, lon1, lat2, lon2, RANGE_LATLON_MICRO) && distance_m(
        lat1,
        lon1,
        lat2,
        lon2,
    ) < RANGE_M
}

} // verus!
