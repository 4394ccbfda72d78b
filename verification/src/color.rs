//! Colour samples and the distance between two of them.

use crate::power::{find_largest_within, largest_within, lemma_largest_within_bounds, weight};
use vstd::arithmetic::power::{lemma_pow1, pow};
use vstd::prelude::*;

verus! {

/// The largest distance between two samples, in thousandths and rounded down:
/// from black to white, `255 * sqrt(3)`.
pub const MAX_DISTANCE_MILLI: u32 = 441_672;

/// Thousandths in one unit of distance, squared.
pub const MILLI_SQUARED: u32 = 1_000_000;

/// A colour sampled from the screen.
#[derive(Clone, Copy, Debug, PartialEq, Eq, Structural)]
pub struct ZoneColor {
    pub r: u8,
    pub g: u8,
    pub b: u8,
}

/// How far two channel values are apart.
pub open spec fn channel_gap(a: u8, b: u8) -> int {
    if a >= b {
        a - b
    } else {
        b - a
    }
}

fn gap(a: u8, b: u8) -> (d: u32)
    ensures
        d == channel_gap(a, b),
{
    if a >= b {
        (a - b) as u32
    } else {
        (b - a) as u32
    }
}

impl ZoneColor {
    /// The square of the Euclidean distance in RGB space.
    pub open spec fn distance_squared(self, other: ZoneColor) -> int {
        channel_gap(self.r, other.r) * channel_gap(self.r, other.r) + channel_gap(self.g, other.g)
            * channel_gap(self.g, other.g) + channel_gap(self.b, other.b) * channel_gap(
            self.b,
            other.b,
        )
    }

    /// The Euclidean distance in RGB space in thousandths, rounded down: the
    /// largest `d` with `d * d <= 1_000_000 * distance_squared`.
    pub open spec fn distance_milli(self, other: ZoneColor) -> nat {
        largest_within(
            MAX_DISTANCE_MILLI as nat,
            1,
            1,
            1,
            MILLI_SQUARED * self.distance_squared(other),
        )
    }

    /// Whether the distance between the two samples is greater than `threshold`.
    pub open spec fn exceeds(self, other: ZoneColor, threshold: u8) -> bool {
        self.distance_squared(other) > threshold * threshold
    }

    pub fn new(r: u8, g: u8, b: u8) -> (color: Self)
        ensures
            color == (ZoneColor { r, g, b }),
    {
        ZoneColor { r, g, b }
    }

    /// The square of the distance to `other`: at most `3 * 255 * 255`.
    pub fn squared_distance(&self, other: &ZoneColor) -> (d2: u32)
        ensures
            d2 == self.distance_squared(*other),
            d2 <= 195_075,
    {
        let dr = gap(self.r, other.r);
        let dg = gap(self.g, other.g);
        let db = gap(self.b, other.b);
        assert(dr * dr <= 65_025 && dg * dg <= 65_025 && db * db <= 65_025) by (nonlinear_arith)
            requires
                dr <= 255,
                dg <= 255,
                db <= 255,
        ;
        dr * dr + dg * dg + db * db
    }

    /// The distance to `other` in thousandths, rounded down.
    pub fn compare_sample(&self, other: &ZoneColor) -> (distance: u32)
        ensures
            distance == self.distance_milli(*other),
            distance * distance <= MILLI_SQUARED * self.distance_squared(*other) < (distance + 1)
                * (distance + 1),
    {
        let d2 = self.squared_distance(other);
        proof {
            lemma_pow1(MAX_DISTANCE_MILLI as int);
            lemma_distance_is_floor_root(*self, *other);
        }
        find_largest_within(MAX_DISTANCE_MILLI, 1, 1, 1, MILLI_SQUARED as u128, d2 as u128)
    }

    /// Whether `other` is further away than `threshold`: what decides whether an update is sent.
    pub fn differs_from(&self, other: &ZoneColor, threshold: u8) -> (differs: bool)
        ensures
            differs == self.exceeds(*other, threshold),
    {
        let d2 = self.squared_distance(other);
        let limit: u32 = threshold as u32;
        assert(limit * limit <= 65_025) by (nonlinear_arith)
            requires
                limit <= 255,
        ;
        d2 > limit * limit
    }
}

/// The distance in thousandths is the square root of a million times the
/// squared distance, rounded down.
pub proof fn lemma_distance_is_floor_root(a: ZoneColor, b: ZoneColor)
    ensures
        a.distance_milli(b) * a.distance_milli(b) <= MILLI_SQUARED * a.distance_squared(b),
        MILLI_SQUARED * a.distance_squared(b) < (a.distance_milli(b) + 1) * (a.distance_milli(b)
            + 1),
        a.distance_milli(b) <= MAX_DISTANCE_MILLI,
{
    let bound = MILLI_SQUARED * a.distance_squared(b);
    let d = a.distance_milli(b) as int;
    lemma_distance_squared_bounds(a, b);
    lemma_largest_within_bounds(MAX_DISTANCE_MILLI as nat, 1, 1, 1, bound);
    lemma_pow1(d);
    lemma_pow1(d + 1);
    assert(weight(d, 1, 1, 1) == d * d);
    assert(weight(d + 1, 1, 1, 1) == (d + 1) * (d + 1));
    if d == 0 {
        assert(d * d == 0) by (nonlinear_arith)
            requires
                d == 0,
        ;
    }
    if d == MAX_DISTANCE_MILLI {
        assert((d + 1) * (d + 1) == 441_673 * 441_673);
    }
}

/// The squared distance lies between 0 and `3 * 255 * 255`.
pub proof fn lemma_distance_squared_bounds(a: ZoneColor, b: ZoneColor)
    ensures
        0 <= a.distance_squared(b) <= 195_075,
{
    let dr = channel_gap(a.r, b.r);
    let dg = channel_gap(a.g, b.g);
    let db = channel_gap(a.b, b.b);
    assert(0 <= dr * dr <= 65_025 && 0 <= dg * dg <= 65_025 && 0 <= db * db <= 65_025)
        by (nonlinear_arith)
        requires
            0 <= dr <= 255,
            0 <= dg <= 255,
            0 <= db <= 255,
    ;
}

/// A sample is at distance 0 from itself, and differs from itself under no threshold.
pub proof fn lemma_same_sample(c: ZoneColor, threshold: u8)
    ensures
        c.distance_squared(c) == 0,
        c.distance_milli(c) == 0,
        !c.exceeds(c, threshold),
{
    lemma_distance_is_floor_root(c, c);
    let d = c.distance_milli(c);
    assert(threshold * threshold >= 0) by (nonlinear_arith);
    assert(d * d <= 0 ==> d == 0) by (nonlinear_arith)
        requires
            d >= 0,
    ;
}

/// The distance does not depend on the order of the two samples.
pub proof fn lemma_distance_symmetric(a: ZoneColor, b: ZoneColor)
    ensures
        a.distance_squared(b) == b.distance_squared(a),
        a.distance_milli(b) == b.distance_milli(a),
{
}

/// The comparison is one of the distance itself with the threshold: two samples
/// differ exactly when their distance in thousandths is above a thousand
/// times the threshold.
pub proof fn lemma_differs_by_distance(a: ZoneColor, b: ZoneColor, threshold: u8)
    ensures
        a.exceeds(b, threshold) <==> a.distance_milli(b) > 1000 * threshold,
{
    lemma_distance_is_floor_root(a, b);
    let d = a.distance_milli(b) as int;
    let d2 = a.distance_squared(b);
    let t = threshold as int;
    if d2 > t * t {
        assert(1_000_000 * d2 >= (1000 * t + 1) * (1000 * t + 1)) by (nonlinear_arith)
            requires
                d2 >= t * t + 1,
                0 <= t <= 255,
        ;
        assert(d >= 1000 * t + 1) by (nonlinear_arith)
            requires
                (d + 1) * (d + 1) > (1000 * t + 1) * (1000 * t + 1),
                d >= 0,
                t >= 0,
        ;
    } else {
        assert(d <= 1000 * t) by (nonlinear_arith)
            requires
                d * d <= 1_000_000 * d2,
                d2 <= t * t,
                d >= 0,
                t >= 0,
        ;
    }
}

} // verus!
