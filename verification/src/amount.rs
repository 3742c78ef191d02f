//! Fixed-width unsigned amounts, held as little-endian 64-bit limbs.
//!
//! The arithmetic itself is done by `casper_types::U256` and
//! `casper_types::U512`; the functions that call them state what they
//! return over the numbers the limbs stand for.

use vstd::prelude::*;

verus! {

/// The radix of the limbs, 2^64.
pub open spec fn radix() -> nat {
    0x1_0000000000000000
}

/// The number of values a 256-bit amount can take, 2^256.
pub open spec fn limit_256() -> nat {
    radix() * (radix() * (radix() * radix()))
}

/// The number of values a 512-bit amount can take, 2^512.
pub open spec fn limit_512() -> nat {
    radix() * (radix() * (radix() * (radix() * limit_256())))
}

/// The number that four little-endian limbs stand for.
pub open spec fn value_of_4(l: Seq<u64>) -> nat {
    (l[0] + 0x1_0000000000000000 * (l[1] + 0x1_0000000000000000 * (l[2] + 0x1_0000000000000000
        * l[3]))) as nat
}

/// The number that eight little-endian limbs stand for.
pub open spec fn value_of_8(l: Seq<u64>) -> nat {
    (l[0] + 0x1_0000000000000000 * (l[1] + 0x1_0000000000000000 * (l[2] + 0x1_0000000000000000
        * (l[3] + 0x1_0000000000000000 * (l[4] + 0x1_0000000000000000 * (l[5]
        + 0x1_0000000000000000 * (l[6] + 0x1_0000000000000000 * l[7]))))))) as nat
}

/// Takes out a value that is known to be there. An absent value is where
/// a panic would be raised: `requires` rules it out, so no verified caller
/// ever raises one.
pub fn panic<A>(value: Option<A>) -> (r: A)
    requires
        value is Some,
    ensures
        value == Some(r),
{
    match value {
        Some(v) => v,
        None => unreached(),
    }
}

/// An unsigned 256-bit amount.
#[derive(Clone, Copy, Debug, PartialEq, Eq)]
pub struct U256 {
    pub limbs: [u64; 4],
}

impl View for U256 {
    type V = nat;

    open spec fn view(&self) -> nat {
        value_of_4(self.limbs@)
    }
}

impl U256 {
    pub fn zero() -> (r: U256)
        ensures
            r@ == 0,
    {
        U256 { limbs: [0, 0, 0, 0] }
    }

    pub fn from_u64(x: u64) -> (r: U256)
        ensures
            r@ == x,
    {
        U256 { limbs: [x, 0, 0, 0] }
    }

    /// The amount with the given limbs, least significant first.
    pub fn from_limbs(limbs: [u64; 4]) -> (r: U256)
        ensures
            r.limbs == limbs,
    {
        U256 { limbs }
    }

    /// Every 256-bit amount lies below 2^256.
    pub proof fn lemma_bounded(self)
        ensures
            self@ < limit_256(),
    {
    }

    /// Whether the sum of the two fits in 256 bits.
    pub fn sum_fits(&self, other: &U256) -> (r: bool)
        ensures
            r == (self@ + other@ < limit_256()),
    {
        self.checked_add(other).is_some()
    }

    /// The sum of two amounts that fits in 256 bits.
    pub fn plus(&self, other: &U256) -> (r: U256)
        requires
            self@ + other@ < limit_256(),
        ensures
            r@ == self@ + other@,
    {
        panic(self.checked_add(other))
    }

    /// Whether `self` is the smaller of the two.
    pub fn less_than(&self, other: &U256) -> (r: bool)
        ensures
            r == (self@ < other@),
    {
        self.checked_sub(other).is_none()
    }

    /// The difference of two amounts of which `other` is not the larger.
    pub fn minus(&self, other: &U256) -> (r: U256)
        requires
            self@ >= other@,
        ensures
            r@ == self@ - other@,
    {
        panic(self.checked_sub(other))
    }

    /// The sum, or `None` where it does not fit in 256 bits.
    ///
    /// Calls `casper_types::U256::checked_add`, which adds limb by limb with
    /// carry and returns `None` exactly when a carry leaves the top limb.
    #[verifier::external_body]
    pub(crate) fn checked_add(&self, other: &U256) -> (r: Option<U256>)
        ensures
            match r {
                Some(s) => s@ == self@ + other@,
                None => self@ + other@ >= limit_256(),
            },
    {
        casper_types::U256(self.limbs).checked_add(casper_types::U256(other.limbs)).map(
            |s| U256::from_limbs(s.0),
        )
    }

    /// The difference, or `None` where `other` is the larger.
    ///
    /// Calls `casper_types::U256::checked_sub`, which subtracts limb by limb
    /// with borrow and returns `None` exactly when a borrow leaves the top
    /// limb.
    #[verifier::external_body]
    pub(crate) fn checked_sub(&self, other: &U256) -> (r: Option<U256>)
        ensures
            match r {
                Some(d) => d@ == self@ - other@,
                None => self@ < other@,
            },
    {
        casper_types::U256(self.limbs).checked_sub(casper_types::U256(other.limbs)).map(
            |d| U256::from_limbs(d.0),
        )
    }
}

/// An unsigned 512-bit amount.
#[derive(Clone, Copy, Debug, PartialEq, Eq)]
pub struct U512 {
    pub limbs: [u64; 8],
}

impl View for U512 {
    type V = nat;

    open spec fn view(&self) -> nat {
        value_of_8(self.limbs@)
    }
}

impl U512 {
    pub fn zero() -> (r: U512)
        ensures
            r@ == 0,
    {
        U512 { limbs: [0, 0, 0, 0, 0, 0, 0, 0] }
    }

    pub fn from_u64(x: u64) -> (r: U512)
        ensures
            r@ == x,
    {
        U512 { limbs: [x, 0, 0, 0, 0, 0, 0, 0] }
    }

    /// The amount with the given limbs, least significant first.
    pub fn from_limbs(limbs: [u64; 8]) -> (r: U512)
        ensures
            r.limbs == limbs,
    {
        U512 { limbs }
    }

    pub fn is_zero(&self) -> (r: bool)
        ensures
            r == (self@ == 0),
    {
        self.limbs[0] == 0 && self.limbs[1] == 0 && self.limbs[2] == 0 && self.limbs[3] == 0
            && self.limbs[4] == 0 && self.limbs[5] == 0 && self.limbs[6] == 0 && self.limbs[7]
            == 0
    }

    /// Every 512-bit amount lies below 2^512.
    pub proof fn lemma_bounded(self)
        ensures
            self@ < limit_512(),
    {
    }

    /// Whether the sum of the two fits in 512 bits.
    pub fn sum_fits(&self, other: &U512) -> (r: bool)
        ensures
            r == (self@ + other@ < limit_512()),
    {
        self.checked_add(other).is_some()
    }

    /// The sum of two amounts that fits in 512 bits.
    pub fn plus(&self, other: &U512) -> (r: U512)
        requires
            self@ + other@ < limit_512(),
        ensures
            r@ == self@ + other@,
    {
        panic(self.checked_add(other))
    }

    /// Whether `self` is the smaller of the two.
    pub fn less_than(&self, other: &U512) -> (r: bool)
        ensures
            r == (self@ < other@),
    {
        self.checked_sub(other).is_none()
    }

    /// The difference of two amounts of which `other` is not the larger.
    pub fn minus(&self, other: &U512) -> (r: U512)
        requires
            self@ >= other@,
        ensures
            r@ == self@ - other@,
    {
        panic(self.checked_sub(other))
    }

    /// Whether the product of the two fits in 512 bits.
    pub fn product_fits(&self, other: &U512) -> (r: bool)
        ensures
            r == (self@ * other@ < limit_512()),
    {
        self.checked_mul(other).is_some()
    }

    /// The product of two amounts that fits in 512 bits.
    pub fn times(&self, other: &U512) -> (r: U512)
        requires
            self@ * other@ < limit_512(),
        ensures
            r@ == self@ * other@,
    {
        panic(self.checked_mul(other))
    }

    /// The quotient of the two, rounded down.
    pub fn divided_by(&self, other: &U512) -> (r: U512)
        requires
            other@ != 0,
        ensures
            r@ == self@ / other@,
    {
        panic(self.checked_div(other))
    }

    /// The sum, or `None` where it does not fit in 512 bits.
    ///
    /// Calls `casper_types::U512::checked_add`, which adds limb by limb with
    /// carry and returns `None` exactly when a carry leaves the top limb.
    #[verifier::external_body]
    pub(crate) fn checked_add(&self, other: &U512) -> (r: Option<U512>)
        ensures
            match r {
                Some(s) => s@ == self@ + other@,
                None => self@ + other@ >= limit_512(),
            },
    {
        casper_types::U512(self.limbs).checked_add(casper_types::U512(other.limbs)).map(
            |s| U512::from_limbs(s.0),
        )
    }

    /// The difference, or `None` where `other` is the larger.
    ///
    /// Calls `casper_types::U512::checked_sub`, which subtracts limb by limb
    /// with borrow and returns `None` exactly when a borrow leaves the top
    /// limb.
    #[verifier::external_body]
    pub(crate) fn checked_sub(&self, other: &U512) -> (r: Option<U512>)
        ensures
            match r {
                Some(d) => d@ == self@ - other@,
                None => self@ < other@,
            },
    {
        casper_types::U512(self.limbs).checked_sub(casper_types::U512(other.limbs)).map(
            |d| U512::from_limbs(d.0),
        )
    }

    /// The product, or `None` where it does not fit in 512 bits.
    ///
    /// Calls `casper_types::U512::checked_mul`, which multiplies in full
    /// width and returns `None` exactly when the upper half is not zero.
    #[verifier::external_body]
    pub(crate) fn checked_mul(&self, other: &U512) -> (r: Option<U512>)
        ensures
            match r {
                Some(p) => p@ == self@ * other@,
                None => self@ * other@ >= limit_512(),
            },
    {
        casper_types::U512(self.limbs).checked_mul(casper_types::U512(other.limbs)).map(
            |p| U512::from_limbs(p.0),
        )
    }

    /// The quotient rounded down, or `None` where `other` is zero.
    ///
    /// Calls `casper_types::U512::checked_div`, which tests the divisor for
    /// zero and otherwise returns the truncated quotient.
    #[verifier::external_body]
    pub(crate) fn checked_div(&self, other: &U512) -> (r: Option<U512>)
        ensures
            match r {
                Some(q) => other@ != 0 && q@ == self@ / other@,
                None => other@ == 0,
            },
    {
        casper_types::U512(self.limbs).checked_div(casper_types::U512(other.limbs)).map(
            |q| U512::from_limbs(q.0),
        )
    }
}

} // verus!
