//! Exact comparison of products that do not fit in 128 bits.

use vstd::prelude::*;

verus! {

/// Two to the power 64: the base in which a 128-bit factor is split in two digits.
pub const BASE: u128 = 0x1_0000_0000_0000_0000;

/// Two to the power 128.
pub open spec fn two_pow_128() -> int {
    0x1_0000_0000_0000_0000_0000_0000_0000_0000int
}

/// An unsigned integer below two to the power 256, held as two 128-bit halves.
#[derive(Clone, Copy, Debug)]
pub struct Wide {
    pub hi: u128,
    pub lo: u128,
}

impl Wide {
    /// The number that the two halves stand for.
    pub open spec fn value(self) -> int {
        self.hi * two_pow_128() + self.lo
    }

    /// The full product of two 128-bit numbers.
    pub fn product(a: u128, b: u128) -> (w: Wide)
        ensures
            w.value() == a * b,
    {
        let a1: u128 = a / BASE;
        let a0: u128 = a % BASE;
        let b1: u128 = b / BASE;
        let b0: u128 = b % BASE;
        proof {
            lemma_digit_product(a0 as int, b0 as int);
            lemma_digit_product(a0 as int, b1 as int);
            lemma_digit_product(a1 as int, b0 as int);
            lemma_digit_product(a1 as int, b1 as int);
        }
        let low: u128 = a0 * b0;
        let mid_a: u128 = a0 * b1;
        let mid_b: u128 = a1 * b0;
        let high: u128 = a1 * b1;
        let carry: u128 = low / BASE + mid_a % BASE + mid_b % BASE;
        let lo: u128 = (carry % BASE) * BASE + low % BASE;
        let hi: u128 = high + mid_a / BASE + mid_b / BASE + carry / BASE;
        proof {
            lemma_split_product(a as int, b as int, a1 as int, a0 as int, b1 as int, b0 as int);
            assert(BASE * BASE == two_pow_128());
        }
        Wide { hi, lo }
    }

    /// Whether `self` is at most `other`.
    pub fn at_most(&self, other: &Wide) -> (fits: bool)
        ensures
            fits == (self.value() <= other.value()),
    {
        self.hi < other.hi || (self.hi == other.hi && self.lo <= other.lo)
    }
}

/// The product of two digits below `BASE` stays below `BASE * BASE - 2 * BASE + 2`.
proof fn lemma_digit_product(x: int, y: int)
    requires
        0 <= x < BASE,
        0 <= y < BASE,
    ensures
        0 <= x * y <= (BASE - 1) * (BASE - 1),
{
    assert(0 <= x * y <= (BASE - 1) * (BASE - 1)) by (nonlinear_arith)
        requires
            0 <= x <= BASE - 1,
            0 <= y <= BASE - 1,
    ;
}

/// Schoolbook multiplication of two two-digit numbers.
proof fn lemma_split_product(a: int, b: int, a1: int, a0: int, b1: int, b0: int)
    requires
        a == a1 * BASE + a0,
        b == b1 * BASE + b0,
    ensures
        a * b == (a1 * b1) * two_pow_128() + (a0 * b1 + a1 * b0) * BASE + a0 * b0,
{
    assert(a * b == (a1 * b1) * 0x1_0000_0000_0000_0000_0000_0000_0000_0000int + (a0 * b1 + a1
        * b0) * 0x1_0000_0000_0000_0000int + a0 * b0) by (nonlinear_arith)
        requires
            a == a1 * 0x1_0000_0000_0000_0000int + a0,
            b == b1 * 0x1_0000_0000_0000_0000int + b0,
    ;
}

/// Whether `a * b <= c * d`, decided without overflow.
pub fn product_le(a: u128, b: u128, c: u128, d: u128) -> (holds: bool)
    ensures
        holds == (a * b <= c * d),
{
    let left = Wide::product(a, b);
    let right = Wide::product(c, d);
    left.at_most(&right)
}

} // verus!
