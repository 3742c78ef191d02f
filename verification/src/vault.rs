//! The vault ledger: shares per account, one share per unit deposited.

use crate::amount::{limit_512, U512};
use crate::ledger::{amount_512, Error, Ledger, State};
use crate::table::{lemma_store, read, Account};
use vstd::prelude::*;

verus! {

/// The state after `caller` has deposited `amount`.
pub open spec fn deposited(s: State, caller: Seq<u8>, amount: nat) -> State {
    State {
        vault_shares: s.vault_shares.insert(caller, read(s.vault_shares, caller) + amount),
        vault_total: s.vault_total + amount,
        ..s
    }
}

/// The state after `caller` has withdrawn `amount`.
pub open spec fn withdrawn(s: State, caller: Seq<u8>, amount: nat) -> State {
    State {
        vault_shares: s.vault_shares.insert(
            caller,
            (read(s.vault_shares, caller) - amount) as nat,
        ),
        vault_total: (s.vault_total - amount) as nat,
        ..s
    }
}

/// Whether the vault total can grow by `amount` without leaving 512 bits.
pub fn can_deposit(ledger: &Ledger, amount: &U512) -> (r: bool)
    ensures
        r == (ledger@.vault_total + amount@ < limit_512()),
{
    ledger.vault_total.sum_fits(amount)
}

/// Adds `amount` to the shares of `caller` and to the vault total. The
/// total stays the sum of all shares.
pub fn vault_deposit(ledger: &mut Ledger, caller: &Account, amount: U512)
    requires
        old(ledger).wf(),
        old(ledger)@.vault_total + amount@ < limit_512(),
    ensures
        final(ledger).wf(),
        final(ledger)@ == deposited(old(ledger)@, caller@, amount@),
        final(ledger)@.vault_total == final(ledger).sum_vault_shares(),
{
    let current = amount_512(&ledger.vault_shares, caller);
    proof {
        lemma_store(ledger.vault_shares.cells(), caller@, current);
    }
    let raised = current.plus(&amount);
    proof {
        lemma_store(ledger.vault_shares.cells(), caller@, raised);
    }
    ledger.vault_shares.set(caller, raised);
    ledger.vault_total = ledger.vault_total.plus(&amount);
}

/// Takes `amount` out of the shares of `caller` and out of the vault total,
/// or refuses and changes nothing where the caller holds fewer shares.
pub fn vault_withdraw(ledger: &mut Ledger, caller: &Account, amount: U512) -> (r: Result<
    (),
    Error,
>)
    requires
        old(ledger).wf(),
    ensures
        final(ledger).wf(),
        r is Ok <==> read(old(ledger)@.vault_shares, caller@) >= amount@,
        r is Ok ==> final(ledger)@ == withdrawn(old(ledger)@, caller@, amount@),
        r is Err ==> r == Err::<(), Error>(Error::InsufficientBalance) && *final(ledger) == *old(
            ledger,
        ),
        final(ledger)@.vault_total == final(ledger).sum_vault_shares(),
{
    let current = amount_512(&ledger.vault_shares, caller);
    if current.less_than(&amount) {
        return Err(Error::InsufficientBalance);
    }
    let lowered = current.minus(&amount);
    proof {
        lemma_store(ledger.vault_shares.cells(), caller@, lowered);
    }
    ledger.vault_shares.set(caller, lowered);
    ledger.vault_total = ledger.vault_total.minus(&amount);
    Ok(())
}

/// The vault shares of `owner`; zero for an account that never deposited.
pub fn get_vault_shares(ledger: &Ledger, owner: &Account) -> (r: U512)
    requires
        ledger.wf(),
    ensures
        r@ == read(ledger@.vault_shares, owner@),
{
    amount_512(&ledger.vault_shares, owner)
}

} // verus!
