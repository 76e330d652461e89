//! Unsigned numbers of up to 256 bits, as far as exact triangle areas need
//! them: a product of a 64-bit and a 128-bit number, sums and differences of
//! such products, and their order.

use vstd::prelude::*;

verus! {

/// An unsigned number `hi * 2^128 + lo`.
#[derive(Clone, Copy, Debug, PartialEq, Eq, Structural)]
pub struct Wide {
    pub hi: u128,
    pub lo: u128,
}

impl Wide {
    /// The number that the two halves stand for.
    pub open spec fn value(self) -> int {
        self.hi * 0x1_0000_0000_0000_0000 * 0x1_0000_0000_0000_0000 + self.lo
    }

    /// The product of a 64-bit and a 128-bit number.
    pub fn product(d: u64, r: u128) -> (w: Wide)
        ensures
            w.value() == d * r,
            w.hi < 0x1_0000_0000_0000_0000,
    {
        let r0: u128 = r % 0x1_0000_0000_0000_0000;
        let r1: u128 = r / 0x1_0000_0000_0000_0000;
        assert(d * r0 <= 0xFFFF_FFFF_FFFF_FFFF * 0xFFFF_FFFF_FFFF_FFFF && d * r1
            <= 0xFFFF_FFFF_FFFF_FFFF * 0xFFFF_FFFF_FFFF_FFFF) by (nonlinear_arith)
            requires
                0 <= d <= 0xFFFF_FFFF_FFFF_FFFF,
                0 <= r0 <= 0xFFFF_FFFF_FFFF_FFFF,
                0 <= r1 <= 0xFFFF_FFFF_FFFF_FFFF,
        ;
        let x: u128 = (d as u128) * r0;
        let y: u128 = (d as u128) * r1;
        let yl: u128 = y % 0x1_0000_0000_0000_0000;
        let yh: u128 = y / 0x1_0000_0000_0000_0000;
        let t: u128 = yl * 0x1_0000_0000_0000_0000;
        assert(d * r == y * 0x1_0000_0000_0000_0000 + x) by (nonlinear_arith)
            requires
                r == r1 * 0x1_0000_0000_0000_0000 + r0,
                x == d * r0,
                y == d * r1,
        ;
        if x > u128::MAX - t {
            Wide { hi: yh + 1, lo: x - (u128::MAX - t) - 1 }
        } else {
            Wide { hi: yh, lo: x + t }
        }
    }

    /// The sum of two numbers below 2^192.
    pub fn plus(self, other: Wide) -> (w: Wide)
        requires
            self.hi < 0x1_0000_0000_0000_0000,
            other.hi < 0x1_0000_0000_0000_0000,
        ensures
            w.value() == self.value() + other.value(),
    {
        if self.lo > u128::MAX - other.lo {
            Wide { hi: self.hi + other.hi + 1, lo: self.lo - (u128::MAX - other.lo) - 1 }
        } else {
            Wide { hi: self.hi + other.hi, lo: self.lo + other.lo }
        }
    }

    /// Whether one number is above another.
    pub fn above(self, other: Wide) -> (b: bool)
        ensures
            b == (self.value() > other.value()),
    {
        self.hi > other.hi || (self.hi == other.hi && self.lo > other.lo)
    }

    /// The distance between two numbers.
    pub fn distance(self, other: Wide) -> (w: Wide)
        ensures
            w.value() == (if self.value() >= other.value() {
                self.value() - other.value()
            } else {
                other.value() - self.value()
            }),
    {
        if self.above(other) {
            self.minus(other)
        } else {
            other.minus(self)
        }
    }

    fn minus(self, other: Wide) -> (w: Wide)
        requires
            self.value() >= other.value(),
        ensures
            w.value() == self.value() - other.value(),
    {
        if self.lo >= other.lo {
            Wide { hi: self.hi - other.hi, lo: self.lo - other.lo }
        } else {
            Wide { hi: self.hi - other.hi - 1, lo: u128::MAX - other.lo + self.lo + 1 }
        }
    }
}

} // verus!
