//! The staking ledger: a stake per account and the total staked.

use crate::amount::{limit_512, U512};
use crate::ledger::{amount_512, Error, Ledger, State};
use crate::table::{lemma_store, read, Account};
use vstd::prelude::*;

verus! {

/// The state after `caller` has staked `amount` more.
pub open spec fn staked(s: State, caller: Seq<u8>, amount: nat) -> State {
    State {
        stakes: s.stakes.insert(caller, read(s.stakes, caller) + amount),
        total_staked: s.total_staked + amount,
        ..s
    }
}

/// The state after `caller` has taken `amount` out of their stake.
pub open spec fn unstaked(s: State, caller: Seq<u8>, amount: nat) -> State {
    State {
        stakes: s.stakes.insert(caller, (read(s.stakes, caller) - amount) as nat),
        total_staked: (s.total_staked - amount) as nat,
        ..s
    }
}

/// Whether the total staked can grow by `amount` without leaving 512 bits.
pub fn can_stake(ledger: &Ledger, amount: &U512) -> (r: bool)
    ensures
        r == (ledger@.total_staked + amount@ < limit_512()),
{
    ledger.total_staked.sum_fits(amount)
}

/// Adds `amount` to the stake of `caller` and to the total staked. The
/// total stays the sum of all stakes and the liquid total.
pub fn stake(ledger: &mut Ledger, caller: &Account, amount: U512)
    requires
        old(ledger).wf(),
        old(ledger)@.total_staked + amount@ < limit_512(),
    ensures
        final(ledger).wf(),
        final(ledger)@ == staked(old(ledger)@, caller@, amount@),
        final(ledger)@.total_staked == final(ledger).sum_stakes()
            + final(ledger)@.total_liquid_staked,
{
    let current = amount_512(&ledger.stakes, caller);
    proof {
        lemma_store(ledger.stakes.cells(), caller@, current);
    }
    let raised = current.plus(&amount);
    proof {
        lemma_store(ledger.stakes.cells(), caller@, raised);
    }
    ledger.stakes.set(caller, raised);
    ledger.total_staked = ledger.total_staked.plus(&amount);
}

/// Takes `amount` out of the stake of `caller` and out of the total staked,
/// or refuses and changes nothing where the stake is smaller.
pub fn unstake(ledger: &mut Ledger, caller: &Account, amount: U512) -> (r: Result<(), Error>)
    requires
        old(ledger).wf(),
    ensures
        final(ledger).wf(),
        r is Ok <==> read(old(ledger)@.stakes, caller@) >= amount@,
        r is Ok ==> final(ledger)@ == unstaked(old(ledger)@, caller@, amount@),
        r is Err ==> r == Err::<(), Error>(Error::InsufficientBalance) && *final(ledger) == *old(
            ledger,
        ),
        final(ledger)@.total_staked == final(ledger).sum_stakes()
            + final(ledger)@.total_liquid_staked,
{
    let current = amount_512(&ledger.stakes, caller);
    if current.less_than(&amount) {
        return Err(Error::InsufficientBalance);
    }
    let lowered = current.minus(&amount);
    proof {
        lemma_store(ledger.stakes.cells(), caller@, lowered);
    }
    ledger.stakes.set(caller, lowered);
    ledger.total_staked = ledger.total_staked.minus(&amount);
    Ok(())
}

/// The stake of `owner`; zero for an account that never staked.
pub fn get_stake(ledger: &Ledger, owner: &Account) -> (r: U512)
    requires
        ledger.wf(),
    ensures
        r@ == read(ledger@.stakes, owner@),
        !ledger@.stakes.contains_key(owner@) ==> r@ == 0,
{
    amount_512(&ledger.stakes, owner)
}

} // verus!
