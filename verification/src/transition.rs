//! How long a light fades from one colour to the next: a large jump is
//! followed quickly, a small one smoothly.

use crate::color::ZoneColor;
use crate::power::{
    find_largest_within, largest_within, lemma_largest_within_bounds, lemma_pow_base_monotone,
    lemma_pow_one, weight,
};
use vstd::arithmetic::power::{lemma_pow_adds, pow};
use vstd::prelude::*;

verus! {

/// The shortest fade, in milliseconds.
pub const TRANSITION_MIN_MS: u32 = 20;

/// The longest fade, in milliseconds: that of a first update, and of no change at all.
pub const TRANSITION_MAX_MS: u32 = 1000;

/// The milliseconds between the longest and the shortest fade.
pub const TRANSITION_SPAN_MS: u32 = 980;

/// The square of the distance from which on the fade is the shortest: 441 squared.
pub const FULL_DISTANCE_SQUARED: u32 = 194_481;

/// `2^20 * 5^10 * 7^14`: the square root of `980^20 / 7^12`.
pub const EASE_UNIT: u128 = 6_945_004_265_973_760_000_000_000;

/// `3^6`: the square root of `441^6 / 7^12`.
pub const EASE_SCALE: u128 = 729;

/// Whether `m / 980 <= (d / 441)^0.3` for the distance `d` whose square is
/// `d2`. Both sides are raised to the twentieth power to stay within whole
/// numbers.
pub open spec fn ease_reaches(m: int, d2: int) -> bool {
    pow(m, 20) * pow(FULL_DISTANCE_SQUARED as int, 3) <= pow(TRANSITION_SPAN_MS as int, 20) * pow(
        d2,
        3,
    )
}

/// What the comparison of `ease_reaches` comes to once `7^12` is divided out
/// on both sides: `(EASE_UNIT * d2) * (EASE_UNIT * d2^2)`.
pub open spec fn ease_bound(d2: int) -> int {
    (EASE_UNIT * d2) * (EASE_UNIT * d2 * d2)
}

/// The milliseconds taken off the longest fade for a squared distance `d2`:
/// `980 * (d / 441)^0.3` rounded down, and 980 from the full distance on.
pub open spec fn eased(d2: int) -> nat {
    largest_within(
        TRANSITION_SPAN_MS as nat,
        10,
        EASE_SCALE as int,
        EASE_SCALE as int,
        ease_bound(d2),
    )
}

/// The fade in milliseconds between two samples whose squared distance is
/// `d2`: `1000 - 980 * (d / 441)^0.3`, rounded up to a whole millisecond.
pub open spec fn transition_for(d2: int) -> int {
    TRANSITION_MAX_MS - eased(d2)
}

/// The values of the powers of the constants that the fade is stated with.
proof fn lemma_ease_constants()
    ensures
        pow(980, 10) == 817_072_806_887_546_890_240_000_000_000,
        pow(980, 20) == (EASE_UNIT * EASE_UNIT) * 13_841_287_201,
        pow(194_481, 3) == (EASE_SCALE * EASE_SCALE) * 13_841_287_201,
{
    reveal_with_fuel(pow, 11);
    lemma_pow_adds(980, 10, 10);
}

/// The weight that the search compares is the left side of `ease_reaches`, up
/// to a factor that both sides share.
proof fn lemma_ease_weight(m: int, d2: int)
    ensures
        ease_reaches(m, d2) <==> weight(m, 10, EASE_SCALE as int, EASE_SCALE as int)
            <= ease_bound(d2),
{
    lemma_ease_constants();
    lemma_pow_adds(m, 10, 10);
    assert(pow(d2, 3) == d2 * (d2 * d2)) by {
        reveal_with_fuel(pow, 4);
        assert(d2 * (d2 * (d2 * 1)) == d2 * (d2 * d2)) by (nonlinear_arith);
    }
    let p = pow(m, 10);
    let scale = EASE_SCALE as int;
    let unit = EASE_UNIT as int;
    let shared = 13_841_287_201int;
    let cube = pow(d2, 3);
    let left = weight(m, 10, scale, scale);
    let right = ease_bound(d2);
    assert(left == (p * p) * (scale * scale)) by (nonlinear_arith)
        requires
            left == (p * scale) * (p * scale),
    ;
    assert(right == (unit * unit) * cube) by (nonlinear_arith)
        requires
            right == (unit * d2) * (unit * d2 * d2),
            cube == d2 * (d2 * d2),
    ;
    assert((p * p) * ((scale * scale) * shared) == shared * left) by (nonlinear_arith)
        requires
            left == (p * p) * (scale * scale),
    ;
    assert(((unit * unit) * shared) * cube == shared * right) by (nonlinear_arith)
        requires
            right == (unit * unit) * cube,
    ;
    assert(shared * left <= shared * right <==> left <= right) by (nonlinear_arith)
        requires
            shared > 0,
    ;
}

/// The bound grows with the squared distance.
proof fn lemma_ease_bound_monotone(nearer: int, further: int)
    requires
        0 <= nearer <= further,
    ensures
        0 <= ease_bound(nearer) <= ease_bound(further),
{
    let unit = EASE_UNIT as int;
    assert(0 <= (unit * nearer) * (unit * nearer * nearer) <= (unit * further) * (unit * further
        * further)) by (nonlinear_arith)
        requires
            0 <= nearer <= further,
            unit > 0,
    ;
}

/// What is taken off the longest fade is `980 * (d / 441)^0.3` rounded down:
/// it reaches that value, and the next whole number, unless the cap of 980
/// comes first, does not.
pub proof fn lemma_eased_is_floor(d2: int)
    requires
        0 <= d2,
    ensures
        eased(d2) <= TRANSITION_SPAN_MS,
        ease_reaches(eased(d2) as int, d2),
        eased(d2) == TRANSITION_SPAN_MS || !ease_reaches(eased(d2) as int + 1, d2),
{
    let m = eased(d2) as int;
    let scale = EASE_SCALE as int;
    lemma_largest_within_bounds(TRANSITION_SPAN_MS as nat, 10, scale, scale, ease_bound(d2));
    lemma_ease_weight(m, d2);
    lemma_ease_weight(m + 1, d2);
    if m == 0 {
        lemma_ease_bound_monotone(0, d2);
        reveal_with_fuel(pow, 11);
        assert(weight(0, 10, scale, scale) == 0);
    }
}

/// A fade lies between the shortest and the longest.
pub proof fn lemma_transition_range(d2: int)
    ensures
        TRANSITION_MIN_MS <= transition_for(d2) <= TRANSITION_MAX_MS,
{
    let scale = EASE_SCALE as int;
    lemma_largest_within_bounds(TRANSITION_SPAN_MS as nat, 10, scale, scale, ease_bound(d2));
}

/// Two equal samples are given the longest fade.
pub proof fn lemma_transition_of_no_change()
    ensures
        transition_for(0) == TRANSITION_MAX_MS,
{
    let scale = EASE_SCALE as int;
    let m = eased(0) as int;
    lemma_largest_within_bounds(TRANSITION_SPAN_MS as nat, 10, scale, scale, ease_bound(0));
    if m > 0 {
        lemma_pow_base_monotone(1, m, 10);
        lemma_pow_one(10);
        let p = pow(m, 10);
        assert((p * scale) * (p * scale) > 0) by (nonlinear_arith)
            requires
                p >= 1,
                scale >= 1,
        ;
        assert(ease_bound(0) == 0) by (nonlinear_arith)
            requires
                ease_bound(0) == (EASE_UNIT * 0) * (EASE_UNIT * 0 * 0),
        ;
    }
}

/// From the full distance on, the fade is the shortest.
pub proof fn lemma_transition_of_full_distance(d2: int)
    requires
        FULL_DISTANCE_SQUARED <= d2,
    ensures
        transition_for(d2) == TRANSITION_MIN_MS,
{
    lemma_pow_base_monotone(FULL_DISTANCE_SQUARED as int, d2, 3);
    lemma_pow_base_monotone(0, 980, 20);
    let span = pow(980, 20);
    let full = pow(FULL_DISTANCE_SQUARED as int, 3);
    let cube = pow(d2, 3);
    assert(span * full <= span * cube) by (nonlinear_arith)
        requires
            0 <= span,
            full <= cube,
    ;
    lemma_ease_weight(980, d2);
}

/// A larger jump is never given a longer fade.
pub proof fn lemma_transition_monotone(nearer: int, further: int)
    requires
        0 <= nearer <= further,
    ensures
        transition_for(further) <= transition_for(nearer),
{
    let scale = EASE_SCALE as int;
    lemma_ease_bound_monotone(nearer, further);
    lemma_largest_within_bounds(TRANSITION_SPAN_MS as nat, 10, scale, scale, ease_bound(nearer));
    lemma_largest_within_bounds(TRANSITION_SPAN_MS as nat, 10, scale, scale, ease_bound(further));
}

/// The fade in milliseconds from `previous` to `sample`.
pub fn calculate_transition(sample: &ZoneColor, previous: &ZoneColor) -> (fade: u32)
    ensures
        fade == transition_for(sample.distance_squared(*previous)),
        TRANSITION_MIN_MS <= fade <= TRANSITION_MAX_MS,
{
    let d2: u128 = sample.squared_distance(previous) as u128;
    proof {
        lemma_ease_constants();
        lemma_transition_range(d2 as int);
        assert(EASE_UNIT * d2 <= EASE_UNIT * 195_075 && EASE_UNIT * d2 * d2 <= EASE_UNIT
            * 195_075 * 195_075) by (nonlinear_arith)
            requires
                0 <= d2 <= 195_075,
        ;
    }
    let left: u128 = EASE_UNIT * d2;
    let right: u128 = left * d2;
    let off: u32 = find_largest_within(
        TRANSITION_SPAN_MS,
        10,
        EASE_SCALE,
        EASE_SCALE,
        left,
        right,
    );
    TRANSITION_MAX_MS - off
}

} // verus!
