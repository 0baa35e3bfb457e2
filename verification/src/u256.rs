//! A 256-bit unsigned integer with overflow-checked arithmetic.
//!
//! Monetary quantities (wei amounts and wei-per-gas prices) live in a
//! 256-bit domain. The value is kept as two 128-bit halves; its
//! mathematical meaning is the natural number `hi * 2^128 + lo`.

use vstd::prelude::*;

verus! {

/// 2^256, one past the largest representable value.
pub open spec fn u256_bound() -> nat {
    0x1_0000_0000_0000_0000 * 0x1_0000_0000_0000_0000 * 0x1_0000_0000_0000_0000
        * 0x1_0000_0000_0000_0000
}

/// A limb product plus a carry stays under `b * b` when every part is a
/// proper limb.
pub proof fn lemma_limb_product_bound(w: nat, g: nat, c: nat, b: nat) by (nonlinear_arith)
    requires
        w < b,
        g < b,
        c < b,
        0 < b,
    ensures
        w * g + c < b * b,
{
}

/// An unsigned 256-bit integer: `hi * 2^128 + lo`.
#[derive(Clone, Copy, Debug, PartialEq, Eq, Structural)]
pub struct U256 {
    pub lo: u128,
    pub hi: u128,
}

impl View for U256 {
    type V = nat;

    open spec fn view(&self) -> nat {
        (self.hi as nat) * 0x1_0000_0000_0000_0000 * 0x1_0000_0000_0000_0000 + self.lo as nat
    }
}

impl U256 {
    /// The value zero.
    pub fn zero() -> (r: U256)
        ensures
            r@ == 0,
    {
        U256 { lo: 0, hi: 0 }
    }

    /// Embeds a 64-bit value.
    pub fn from_u64(v: u64) -> (r: U256)
        ensures
            r@ == v,
    {
        U256 { lo: v as u128, hi: 0 }
    }

    /// Embeds a 128-bit value.
    pub fn from_u128(v: u128) -> (r: U256)
        ensures
            r@ == v,
    {
        U256 { lo: v, hi: 0 }
    }

    /// Assembles a value from its two 128-bit halves, low half first.
    pub fn from_words(lo: u128, hi: u128) -> (r: U256)
        ensures
            r@ == (hi as nat) * 0x1_0000_0000_0000_0000 * 0x1_0000_0000_0000_0000 + lo as nat,
    {
        U256 { lo, hi }
    }

    /// The two 128-bit halves, low half first.
    pub fn to_words(&self) -> (r: (u128, u128))
        ensures
            self@ == (r.1 as nat) * 0x1_0000_0000_0000_0000 * 0x1_0000_0000_0000_0000
                + r.0 as nat,
    {
        (self.lo, self.hi)
    }

    /// Whether this value is strictly below another; the order is the
    /// numerical order of the 256-bit values.
    pub fn less_than(&self, other: &U256) -> (r: bool)
        ensures
            r <==> self@ < other@,
    {
        self.hi < other.hi || (self.hi == other.hi && self.lo < other.lo)
    }

    /// Overflow-checked addition: the exact sum where it fits the 256-bit
    /// domain, and nothing otherwise.
    pub fn checked_add(&self, other: &U256) -> (r: Option<U256>)
        ensures
            r is Some <==> self@ + other@ < u256_bound(),
            r matches Some(s) ==> s@ == self@ + other@,
    {
        let (lo, carry): (u128, u128) = match self.lo.checked_add(other.lo) {
            Some(l) => (l, 0),
            None => (self.lo - (u128::MAX - other.lo) - 1, 1),
        };
        let hi_opt: Option<u128> = match self.hi.checked_add(other.hi) {
            Some(h) => h.checked_add(carry),
            None => None,
        };
        match hi_opt {
            Some(hi) => Some(U256 { lo, hi }),
            None => None,
        }
    }

    /// Overflow-checked multiplication by a 64-bit factor: the exact product
    /// where it fits the 256-bit domain, and nothing otherwise.
    pub fn checked_mul_u64(&self, g: u64) -> (r: Option<U256>)
        ensures
            r is Some <==> self@ * g < u256_bound(),
            r matches Some(p) ==> p@ == self@ * g,
    {
        let b: u128 = 0x1_0000_0000_0000_0000;
        let l0: u128 = self.lo % b;
        let l1: u128 = self.lo / b;
        let h0: u128 = self.hi % b;
        let h1: u128 = self.hi / b;
        let gw: u128 = g as u128;
        proof {
            lemma_limb_product_bound(l0 as nat, gw as nat, 0, b as nat);
            lemma_limb_product_bound(l1 as nat, gw as nat, (b - 1) as nat, b as nat);
            lemma_limb_product_bound(h0 as nat, gw as nat, (b - 1) as nat, b as nat);
            lemma_limb_product_bound(h1 as nat, gw as nat, (b - 1) as nat, b as nat);
        }
        let p0: u128 = l0 * gw;
        let r0: u128 = p0 % b;
        let c0: u128 = p0 / b;
        let p1: u128 = l1 * gw + c0;
        let r1: u128 = p1 % b;
        let c1: u128 = p1 / b;
        let p2: u128 = h0 * gw + c1;
        let r2: u128 = p2 % b;
        let c2: u128 = p2 / b;
        let p3: u128 = h1 * gw + c2;
        let r3: u128 = p3 % b;
        let c3: u128 = p3 / b;
        proof {
            assert(self@ * gw
                == r0 + (r1 as nat) * 0x1_0000_0000_0000_0000
                    + (r2 as nat) * 0x1_0000_0000_0000_0000 * 0x1_0000_0000_0000_0000
                    + (r3 as nat) * 0x1_0000_0000_0000_0000 * 0x1_0000_0000_0000_0000
                        * 0x1_0000_0000_0000_0000
                    + (c3 as nat) * 0x1_0000_0000_0000_0000 * 0x1_0000_0000_0000_0000
                        * 0x1_0000_0000_0000_0000 * 0x1_0000_0000_0000_0000)
                by (nonlinear_arith)
                requires
                    self@ == l0 + (l1 as nat) * 0x1_0000_0000_0000_0000
                        + (h0 as nat) * 0x1_0000_0000_0000_0000 * 0x1_0000_0000_0000_0000
                        + (h1 as nat) * 0x1_0000_0000_0000_0000 * 0x1_0000_0000_0000_0000
                            * 0x1_0000_0000_0000_0000,
                    p0 == (l0 as nat) * (gw as nat),
                    p1 == (l1 as nat) * (gw as nat) + c0,
                    p2 == (h0 as nat) * (gw as nat) + c1,
                    p3 == (h1 as nat) * (gw as nat) + c2,
                    p0 == r0 + (c0 as nat) * 0x1_0000_0000_0000_0000,
                    p1 == r1 + (c1 as nat) * 0x1_0000_0000_0000_0000,
                    p2 == r2 + (c2 as nat) * 0x1_0000_0000_0000_0000,
                    p3 == r3 + (c3 as nat) * 0x1_0000_0000_0000_0000,
            ;
        }
        if c3 != 0 {
            None
        } else {
            Some(U256 { lo: r0 + r1 * b, hi: r2 + r3 * b })
        }
    }

    /// The value as a 64-bit integer, where it fits.
    pub fn try_to_u64(&self) -> (r: Option<u64>)
        ensures
            r is Some <==> self@ < 0x1_0000_0000_0000_0000,
            r matches Some(v) ==> v as nat == self@,
    {
        if self.hi == 0 && self.lo < 0x1_0000_0000_0000_0000 {
            Some(self.lo as u64)
        } else {
            None
        }
    }
}

} // verus!
