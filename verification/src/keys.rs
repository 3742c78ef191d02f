//! The addresses under which cells are persisted: the bytes of the owner's
//! canonical form, followed for a composite key by an underscore and the
//! second part.

use crate::table::{Account, Pair, Slot};
use vstd::prelude::*;

verus! {

/// The byte that parts the two halves of a composite address, `_`.
pub const SEPARATOR: u8 = 95;

/// The decimal digits of `n` in ASCII, the most significant first.
pub open spec fn decimal(n: nat) -> Seq<u8>
    decreases n,
{
    if n < 10 {
        seq![(48 + n) as u8]
    } else {
        decimal(n / 10).push((48 + n % 10) as u8)
    }
}

/// The two parts of a composite address joined by the separator.
pub open spec fn joined(owner: Seq<u8>, second: Seq<u8>) -> Seq<u8> {
    owner.push(SEPARATOR) + second
}

/// The decimal digits of `n` in ASCII, the most significant first.
pub fn decimal_digits(n: u64) -> (r: Vec<u8>)
    ensures
        r@ == decimal(n as nat),
    decreases n,
{
    if n < 10 {
        let mut digits: Vec<u8> = Vec::new();
        digits.push(48 + n as u8);
        proof {
            assert(digits@ =~= seq![(48 + n) as u8]);
        }
        digits
    } else {
        let mut digits = decimal_digits(n / 10);
        digits.push(48 + (n % 10) as u8);
        digits
    }
}

fn join(owner: &Vec<u8>, second: &Vec<u8>) -> (r: Vec<u8>)
    ensures
        r@ == joined(owner@, second@),
{
    let mut address: Vec<u8> = Vec::new();
    address.extend_from_slice(owner.as_slice());
    address.push(SEPARATOR);
    address.extend_from_slice(second.as_slice());
    proof {
        assert(address@ =~= joined(owner@, second@));
    }
    address
}

impl Account {
    /// The address of a cell of this account: its canonical form.
    pub fn storage_key(&self) -> (r: Vec<u8>)
        ensures
            r@ == self@,
    {
        let mut address: Vec<u8> = Vec::new();
        address.extend_from_slice(self.id.as_slice());
        proof {
            assert(address@ =~= self@);
        }
        address
    }
}

impl Pair {
    /// The address of the cell of this pair: owner, separator, spender.
    pub fn storage_key(&self) -> (r: Vec<u8>)
        ensures
            r@ == joined(self.owner@, self.spender@),
    {
        join(&self.owner.id, &self.spender.id)
    }
}

impl Slot {
    /// The address of this record: owner, separator, the id in decimal.
    pub fn storage_key(&self) -> (r: Vec<u8>)
        ensures
            r@ == joined(self.owner@, decimal(self.id as nat)),
    {
        join(&self.owner.id, &decimal_digits(self.id))
    }
}

} // verus!
