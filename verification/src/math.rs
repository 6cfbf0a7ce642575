//! Planar distance estimates and heading arithmetic.
//!
//! Headings are microdegrees, distances are millimetres and squared distances
//! are square millimetres. Great-circle distances and bearings are computed by
//! the caller and handed in.

use vstd::prelude::*;
use vstd::arithmetic::power2::lemma2_to64;
use vstd::arithmetic::power2::lemma_pow2_pos;
use vstd::arithmetic::power2::lemma_pow2_strictly_increases;
use vstd::arithmetic::power2::pow2;
use vstd::bits::lemma_u64_shr_is_div;
use crate::model::Location;

pub mod angle;

verus! {

/// A full turn in microdegrees.
pub const FULL_TURN: i32 = 360_000_000;

/// A half turn in microdegrees.
pub const HALF_TURN: i32 = 180_000_000;

/// Millimetres per degree of latitude on a sphere of radius 6,378,137 m,
/// rounded down.
pub const LAT_MM_PER_DEGREE: u32 = 111_319_490;

/// No planar estimate of a squared distance is greater.
pub const PLANAR_SQR_MAX: u128 = 1_195_349_016_533_006_706_343_200;

pub open spec fn abs_int(x: int) -> int {
    if x < 0 {
        -x
    } else {
        x
    }
}

pub open spec fn min_int(x: int, y: int) -> int {
    if x <= y {
        x
    } else {
        y
    }
}

/// The heading congruent to `h` in [0°, 360°).
pub open spec fn normalized(h: int) -> int {
    h % 360_000_000
}

/// The circular difference of two headings: the smaller of the two arcs
/// between them.
pub open spec fn heading_diff(a: int, b: int) -> int {
    let m = abs_int(a - b) % 360_000_000;
    min_int(m, 360_000_000 - m)
}

/// Brings a heading into [0°, 360°).
pub fn normalize_heading(h: i32) -> (r: i32)
    ensures
        r == normalized(h as int),
        0 <= r < FULL_TURN,
{
    let m: i32 = h % FULL_TURN;
    if m < 0 {
        m + FULL_TURN
    } else {
        m
    }
}

/// The heading `h` turned by `offset`, brought into [0°, 360°).
pub fn turn_heading(h: i32, offset: i32) -> (r: i32)
    ensures
        r == normalized(h + offset),
        0 <= r < FULL_TURN,
{
    let sum: i64 = h as i64 + offset as i64;
    let m: i64 = sum % (FULL_TURN as i64);
    if m < 0 {
        (m + FULL_TURN as i64) as i32
    } else {
        m as i32
    }
}

/// The circular difference of two headings, between 0° and 180°.
pub fn calculate_heading_diff(a: i32, b: i32) -> (d: i32)
    ensures
        d == heading_diff(a as int, b as int),
        0 <= d <= HALF_TURN,
{
    let diff: i64 = a as i64 - b as i64;
    let magnitude: i64 = if diff < 0 {
        -diff
    } else {
        diff
    };
    let m: i64 = magnitude % (FULL_TURN as i64);
    if m > HALF_TURN as i64 {
        (FULL_TURN as i64 - m) as i32
    } else {
        m as i32
    }
}

/// The plain difference of two headings, without wrapping around the circle.
pub open spec fn heading_gap(a: int, b: int) -> int {
    abs_int(a - b)
}

/// The magnitude of `a - b`, without wrapping around the circle.
pub fn calculate_heading_gap(a: i32, b: i32) -> (d: u32)
    ensures
        d == heading_gap(a as int, b as int),
{
    let diff: i64 = a as i64 - b as i64;
    if diff < 0 {
        (-diff) as u32
    } else {
        diff as u32
    }
}

/// The magnitude of the modular difference of two angle bit patterns.
pub open spec fn angle_gap(a: i32, b: i32) -> int {
    abs_int(a.wrapping_sub(b) as int)
}

/// The length in millimetres of an arc of `gap` angle units, where one
/// degree of the arc spans `mm_per_degree` millimetres, rounded down.
pub open spec fn arc_mm(gap: int, mm_per_degree: int) -> int {
    (gap * 180 * mm_per_degree) / 2_147_483_647
}

/// A length scaled by 0.999, rounded down.
pub open spec fn shortened(mm_per_degree: int) -> int {
    (mm_per_degree * 999) / 1000
}

/// The planar estimate of the squared distance between two locations, with
/// the given scales along the meridian and along the parallel.
pub open spec fn planar_sqr(a: Location, b: Location, lat_scale: int, lng_scale: int) -> int {
    let lat_mm = arc_mm(angle_gap(a.lat.0, b.lat.0), lat_scale);
    let lng_mm = arc_mm(angle_gap(a.lng.0, b.lng.0), lng_scale);
    lat_mm * lat_mm + lng_mm * lng_mm
}

/// The squared planar distance with both scales shortened by 0.999, which
/// keeps it below the great-circle distance over short ranges.
pub open spec fn underestimate_sqr(a: Location, b: Location, lng_mm_per_degree: int) -> int {
    planar_sqr(a, b, shortened(111_319_490), shortened(lng_mm_per_degree))
}

/// The squared planar distance at full scale.
pub open spec fn approx_sqr(a: Location, b: Location, lng_mm_per_degree: int) -> int {
    planar_sqr(a, b, 111_319_490, lng_mm_per_degree)
}

/// The lower estimate is no more than the best estimate.
pub proof fn lemma_underestimate_is_below_estimate(
    a: Location,
    b: Location,
    lng_mm_per_degree: int,
)
    requires
        0 <= lng_mm_per_degree,
    ensures
        0 <= underestimate_sqr(a, b, lng_mm_per_degree) <= approx_sqr(a, b, lng_mm_per_degree),
{
    lemma_arc_grows(angle_gap(a.lat.0, b.lat.0), shortened(111_319_490), 111_319_490);
    lemma_arc_grows(
        angle_gap(a.lng.0, b.lng.0),
        shortened(lng_mm_per_degree),
        lng_mm_per_degree,
    );
}

proof fn lemma_arc_grows(gap: int, less: int, more: int)
    requires
        0 <= gap,
        0 <= less <= more,
    ensures
        0 <= arc_mm(gap, less) <= arc_mm(gap, more),
        arc_mm(gap, less) * arc_mm(gap, less) <= arc_mm(gap, more) * arc_mm(gap, more),
{
    assert(0 <= gap * 180 * less <= gap * 180 * more) by (nonlinear_arith)
        requires
            0 <= gap,
            0 <= less <= more,
    ;
    vstd::arithmetic::div_mod::lemma_div_is_ordered(
        gap * 180 * less,
        gap * 180 * more,
        2_147_483_647,
    );
    vstd::arithmetic::div_mod::lemma_div_pos_is_pos(gap * 180 * less, 2_147_483_647);
    let x = arc_mm(gap, less);
    let y = arc_mm(gap, more);
    assert(x * x <= y * y) by (nonlinear_arith)
        requires
            0 <= x <= y,
    ;
}

fn gap_of(a: i32, b: i32) -> (g: u64)
    ensures
        g == angle_gap(a, b),
        g <= 2_147_483_648,
{
    let d: i32 = a.wrapping_sub(b);
    if d < 0 {
        (-(d as i64)) as u64
    } else {
        d as u64
    }
}

fn arc_of(gap: u64, mm_per_degree: u32) -> (mm: u128)
    requires
        gap <= 2_147_483_648,
    ensures
        mm == arc_mm(gap as int, mm_per_degree as int),
        mm <= 773_094_113_460,
{
    assert(gap * 180 * mm_per_degree <= 1660206966247312588800) by (nonlinear_arith)
        requires
            gap <= 2_147_483_648,
            mm_per_degree <= 0xffff_ffff,
    ;
    let product: u128 = gap as u128 * 180 * mm_per_degree as u128;
    let mm: u128 = product / 2_147_483_647;
    assert(mm <= 773_094_113_460);
    mm
}

fn planar_of(a: Location, b: Location, lat_scale: u32, lng_scale: u32) -> (sqr: u128)
    ensures
        sqr == planar_sqr(a, b, lat_scale as int, lng_scale as int),
        sqr <= PLANAR_SQR_MAX,
{
    let lat_mm = arc_of(gap_of(a.lat.0, b.lat.0), lat_scale);
    let lng_mm = arc_of(gap_of(a.lng.0, b.lng.0), lng_scale);
    assert(lat_mm * lat_mm <= 773_094_113_460 * 773_094_113_460) by (nonlinear_arith)
        requires
            lat_mm <= 773_094_113_460,
    ;
    assert(lng_mm * lng_mm <= 773_094_113_460 * 773_094_113_460) by (nonlinear_arith)
        requires
            lng_mm <= 773_094_113_460,
    ;
    lat_mm * lat_mm + lng_mm * lng_mm
}

fn shorten(mm_per_degree: u32) -> (r: u32)
    ensures
        r == shortened(mm_per_degree as int),
{
    ((mm_per_degree as u64 * 999) / 1000) as u32
}

/// A lower estimate of the squared distance between `a` and `b`, where a
/// degree of longitude spans `approx_lng_mm_per_degree` millimetres.
pub fn underestimate_distance_sqr(a: Location, b: Location, approx_lng_mm_per_degree: u32) -> (sqr:
    u128)
    ensures
        sqr == underestimate_sqr(a, b, approx_lng_mm_per_degree as int),
        sqr <= PLANAR_SQR_MAX,
{
    planar_of(a, b, shorten(LAT_MM_PER_DEGREE), shorten(approx_lng_mm_per_degree))
}

/// The best planar estimate of the squared distance between `a` and `b`.
pub fn approx_distance_sqr(a: Location, b: Location, approx_lng_mm_per_degree: u32) -> (sqr: u128)
    ensures
        sqr == approx_sqr(a, b, approx_lng_mm_per_degree as int),
        sqr <= PLANAR_SQR_MAX,
{
    planar_of(a, b, LAT_MM_PER_DEGREE, approx_lng_mm_per_degree)
}

/// Whether the lower estimate of the squared distance is at most
/// `radius_sqr`. A `false` rules the pair out; a `true` does not rule it in.
pub fn is_at_least_within_radius_sqr(
    a: Location,
    b: Location,
    radius_sqr: u128,
    approx_lng_mm_per_degree: u32,
) -> (within: bool)
    ensures
        within == (underestimate_sqr(a, b, approx_lng_mm_per_degree as int) <= radius_sqr),
{
    underestimate_distance_sqr(a, b, approx_lng_mm_per_degree) <= radius_sqr
}

/// Whether the lower estimate of the distance is at most `radius`.
pub fn is_at_least_within_radius(
    a: Location,
    b: Location,
    radius: u64,
    approx_lng_mm_per_degree: u32,
) -> (within: bool)
    ensures
        within == (underestimate_sqr(a, b, approx_lng_mm_per_degree as int) <= radius * radius),
{
    assert(radius * radius <= 0xffff_ffff_ffff_ffff * 0xffff_ffff_ffff_ffff) by (nonlinear_arith)
        requires
            radius <= 0xffff_ffff_ffff_ffff,
    ;
    is_at_least_within_radius_sqr(a, b, radius as u128 * radius as u128, approx_lng_mm_per_degree)
}

/// The great-circle distance `distance`, if the pair passes the planar check
/// and `distance` itself is within `radius`.
pub fn distance_if_within_radius(
    a: Location,
    b: Location,
    radius: u64,
    approx_lng_mm_per_degree: u32,
    distance: u64,
) -> (r: Option<u64>)
    ensures
        r == if underestimate_sqr(a, b, approx_lng_mm_per_degree as int) <= radius * radius
            && distance <= radius {
            Some(distance)
        } else {
            None
        },
{
    if !is_at_least_within_radius(a, b, radius, approx_lng_mm_per_degree) {
        return None;
    }
    if distance > radius {
        return None;
    }
    Some(distance)
}

/// The exponent field of a single-precision number.
pub open spec fn single_exponent(bits: u32) -> int {
    ((bits / 0x80_0000) % 256) as int
}

/// The significand of a single-precision number, as a whole number: the
/// fraction field, with the leading one unless the exponent field is 0.
pub open spec fn single_significand(bits: u32) -> int {
    if single_exponent(bits) == 0 {
        (bits % 0x80_0000) as int
    } else {
        0x80_0000 + bits % 0x80_0000
    }
}

/// How far the significand is to be shifted left to give the magnitude of a
/// single-precision number; a negative shift is one to the right.
pub open spec fn single_shift(bits: u32) -> int {
    if single_exponent(bits) == 0 {
        -149
    } else {
        single_exponent(bits) - 150
    }
}

/// The magnitude of a single-precision number of degrees in microdegrees,
/// rounded down.
pub open spec fn micro_magnitude(bits: u32) -> int {
    if single_shift(bits) >= 0 {
        single_significand(bits) * 1_000_000 * pow2(single_shift(bits) as nat)
    } else {
        (single_significand(bits) * 1_000_000) / (pow2((-single_shift(bits)) as nat) as int)
    }
}

/// The heading in microdegrees that a single-precision number of degrees
/// stands for, rounded toward zero; `None` for what is not a number, for an
/// infinity, and for a heading beyond the range of microdegrees.
pub open spec fn microdegrees_of(bits: u32) -> Option<i32> {
    if single_exponent(bits) == 255 || micro_magnitude(bits) > i32::MAX {
        None
    } else if bits >= 0x8000_0000 {
        Some((-micro_magnitude(bits)) as i32)
    } else {
        Some(micro_magnitude(bits) as i32)
    }
}

/// See [`microdegrees_of`]. `bits` are the bits of an IEEE 754 single, which
/// is how the heading of a link is stored.
pub fn heading_from_single(bits: u32) -> (heading: Option<i32>)
    ensures
        heading == microdegrees_of(bits),
{
    let exponent: u32 = (bits / 0x80_0000) % 256;
    if exponent == 255 {
        return None;
    }
    let fraction: u32 = bits % 0x80_0000;
    let significand: u64 = if exponent == 0 {
        fraction as u64
    } else {
        0x80_0000 + fraction as u64
    };
    if exponent >= 150 {
        proof {
            lemma_pow2_pos((exponent - 150) as nat);
            assert(significand * 1_000_000 * pow2((exponent - 150) as nat) >= 0x80_0000
                * 1_000_000) by (nonlinear_arith)
                requires
                    significand >= 0x80_0000,
                    pow2((exponent - 150) as nat) >= 1,
            ;
        }
        return None;
    }
    let shift: u32 = if exponent == 0 {
        149
    } else {
        150 - exponent
    };
    let scaled: u64 = significand * 1_000_000;
    let magnitude: u64 = if shift >= 64 {
        proof {
            lemma2_to64();
            if shift > 64 {
                lemma_pow2_strictly_increases(64, shift as nat);
            }
            assert(scaled < pow2(shift as nat));
            vstd::arithmetic::div_mod::lemma_basic_div(scaled as int, pow2(shift as nat) as int);
        }
        0
    } else {
        proof {
            lemma_u64_shr_is_div(scaled, shift as u64);
        }
        scaled >> (shift as u64)
    };
    if magnitude > i32::MAX as u64 {
        None
    } else if bits >= 0x8000_0000 {
        Some(-(magnitude as i32))
    } else {
        Some(magnitude as i32)
    }
}

} // verus!
