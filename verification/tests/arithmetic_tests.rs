use zync::power::{find_largest_within, raise};
use zync::wide::{product_le, Wide};

#[test]
fn a_product_fills_both_halves() {
    let w = Wide::product(u128::MAX, u128::MAX);
    assert_eq!(w.hi, u128::MAX - 1);
    assert_eq!(w.lo, 1);
    let small = Wide::product(3, 5);
    assert_eq!((small.hi, small.lo), (0, 15));
    let shifted = Wide::product(1 << 127, 2);
    assert_eq!((shifted.hi, shifted.lo), (1, 0));
    let mixed = Wide::product((1 << 64) + 3, (1 << 64) + 5);
    assert_eq!((mixed.hi, mixed.lo), (1, (8 << 64) + 15));
    let zero = Wide::product(0, u128::MAX);
    assert_eq!((zero.hi, zero.lo), (0, 0));
}

#[test]
fn wide_numbers_are_compared_by_value() {
    let a = Wide { hi: 1, lo: 0 };
    let b = Wide { hi: 0, lo: u128::MAX };
    assert!(b.at_most(&a));
    assert!(!a.at_most(&b));
    assert!(a.at_most(&a));
    assert!(Wide { hi: 2, lo: 3 }.at_most(&Wide { hi: 2, lo: 4 }));
    assert!(!Wide { hi: 2, lo: 5 }.at_most(&Wide { hi: 2, lo: 4 }));
}

#[test]
fn products_are_compared_without_overflow() {
    assert!(product_le(2, 3, 3, 2));
    assert!(product_le(2, 3, 7, 1));
    assert!(!product_le(2, 4, 7, 1));
    assert!(product_le(u128::MAX, u128::MAX - 1, u128::MAX - 1, u128::MAX));
    assert!(!product_le(u128::MAX - 1, u128::MAX - 1, u128::MAX, u128::MAX - 2));
    assert!(product_le(u128::MAX, u128::MAX - 2, u128::MAX - 1, u128::MAX - 1));
    assert!(!product_le(u128::MAX, u128::MAX, u128::MAX - 1, u128::MAX));
    assert!(product_le(0, u128::MAX, 0, 0));
    assert!(!product_le(1 << 100, 1 << 100, (1 << 100) - 1, (1 << 100) + 1));
}

#[test]
fn powers_are_computed_exactly() {
    assert_eq!(raise(7, 0), 1);
    assert_eq!(raise(0, 0), 1);
    assert_eq!(raise(0, 5), 0);
    assert_eq!(raise(2, 127), 1 << 127);
    assert_eq!(raise(255, 10), 1_162_523_670_191_533_212_890_625);
    assert_eq!(raise(255_000, 7), 70_110_209_207_109_375 * 1_000_000_000_000_000_000_000);
    assert_eq!(raise(980, 10), 817_072_806_887_546_890_240_000_000_000);
}

#[test]
fn the_search_finds_whole_roots() {
    // the largest k up to 1000 with k * k <= 10 * 10
    for (bound, root) in [(0u128, 0u32), (1, 1), (3, 1), (4, 2), (99, 9), (100, 10), (101, 10)] {
        assert_eq!(find_largest_within(1000, 1, 1, 1, bound, 1), root);
    }
    // capped
    assert_eq!(find_largest_within(5, 1, 1, 1, 1000, 1000), 5);
    assert_eq!(find_largest_within(0, 1, 1, 1, 1000, 1000), 0);
    // the largest k with (k^3 * 2) * (k^3 * 4) <= 8 * 64 * 1000: k^6 <= 64000, k = 6
    assert_eq!(find_largest_within(100, 3, 2, 4, 8 * 64, 1000), 6);
}
