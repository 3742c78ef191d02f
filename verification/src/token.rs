//! The fungible ledger: balances and allowances of the base token.

use crate::amount::U256;
use crate::ledger::{amount_256, Error, Ledger, State};
use crate::table::{
    lemma_put_views, lemma_store, lemma_total_covers_keys, read, Account, Key, Pair,
};
use vstd::prelude::*;

verus! {

/// The state after `caller` has sent `amount` to `recipient`: the sender is
/// debited, then the recipient credited, so sending to oneself changes no
/// balance.
pub open spec fn transferred(s: State, caller: Seq<u8>, recipient: Seq<u8>, amount: nat) -> State {
    let debited = s.balances.insert(caller, (read(s.balances, caller) - amount) as nat);
    State { balances: debited.insert(recipient, read(debited, recipient) + amount), ..s }
}

/// The state after `owner` has set the allowance of `spender` to `amount`.
pub open spec fn approved(s: State, owner: Seq<u8>, spender: Seq<u8>, amount: nat) -> State {
    State { allowances: s.allowances.insert((owner, spender), amount), ..s }
}

/// A covered transfer between two accounts moves value and makes none:
/// what the sender loses the recipient gains, and no third balance changes.
pub proof fn lemma_transfer_moves(s: State, caller: Seq<u8>, recipient: Seq<u8>, amount: nat)
    requires
        read(s.balances, caller) >= amount,
        caller != recipient,
    ensures
        read(transferred(s, caller, recipient, amount).balances, caller) == read(
            s.balances,
            caller,
        ) - amount,
        read(transferred(s, caller, recipient, amount).balances, recipient) == read(
            s.balances,
            recipient,
        ) + amount,
        forall|a: Seq<u8>|
            a != caller && a != recipient ==> #[trigger] read(
                transferred(s, caller, recipient, amount).balances,
                a,
            ) == read(s.balances, a),
{
}

/// A covered transfer to oneself leaves every balance as it was.
pub proof fn lemma_self_transfer(s: State, caller: Seq<u8>, amount: nat)
    requires
        read(s.balances, caller) >= amount,
    ensures
        forall|a: Seq<u8>| #[trigger]
            read(transferred(s, caller, caller, amount).balances, a) == read(s.balances, a),
{
}

/// No two accounts together hold more than the supply.
pub proof fn lemma_balances_within_supply(ledger: Ledger, a: Seq<u8>, b: Seq<u8>)
    requires
        ledger.wf(),
        a != b,
    ensures
        read(ledger@.balances, a) + read(ledger@.balances, b) <= ledger@.total_supply,
{
    lemma_total_covers_keys(ledger.balances.cells(), a, b);
}

pub fn name(ledger: &Ledger) -> (r: &String)
    ensures
        r@ == ledger@.name,
{
    &ledger.name
}

pub fn symbol(ledger: &Ledger) -> (r: &String)
    ensures
        r@ == ledger@.symbol,
{
    &ledger.symbol
}

pub fn decimals(ledger: &Ledger) -> (r: u8)
    ensures
        r == ledger@.decimals,
{
    ledger.decimals
}

pub fn total_supply(ledger: &Ledger) -> (r: U256)
    ensures
        r@ == ledger@.total_supply,
{
    ledger.total_supply
}

/// The balance of `owner`; zero for an account that never held any.
pub fn balance_of(ledger: &Ledger, owner: &Account) -> (r: U256)
    requires
        ledger.wf(),
    ensures
        r@ == read(ledger@.balances, owner@),
        !ledger@.balances.contains_key(owner@) ==> r@ == 0,
{
    amount_256(&ledger.balances, owner)
}

/// Moves `amount` from `caller` to `recipient`, or refuses and changes
/// nothing where the caller holds less. The sum of all balances stays the
/// supply.
pub fn transfer(ledger: &mut Ledger, caller: &Account, recipient: &Account, amount: U256) -> (r:
    Result<(), Error>)
    requires
        old(ledger).wf(),
    ensures
        final(ledger).wf(),
        r is Ok <==> read(old(ledger)@.balances, caller@) >= amount@,
        r is Ok ==> final(ledger)@ == transferred(old(ledger)@, caller@, recipient@, amount@),
        r is Err ==> r == Err::<(), Error>(Error::InsufficientBalance) && *final(ledger) == *old(
            ledger,
        ),
        final(ledger).sum_balances() == old(ledger)@.total_supply,
        final(ledger)@.total_supply == old(ledger)@.total_supply,
{
    let from_balance = amount_256(&ledger.balances, caller);
    if from_balance.less_than(&amount) {
        return Err(Error::InsufficientBalance);
    }
    let rest = from_balance.minus(&amount);
    proof {
        lemma_store(ledger.balances.cells(), caller@, rest);
    }
    ledger.balances.set(caller, rest);
    let to_balance = amount_256(&ledger.balances, recipient);
    proof {
        lemma_store(ledger.balances.cells(), recipient@, to_balance);
        ledger.total_supply.lemma_bounded();
    }
    let credited = to_balance.plus(&amount);
    proof {
        lemma_store(ledger.balances.cells(), recipient@, credited);
    }
    ledger.balances.set(recipient, credited);
    Ok(())
}

/// Sets what `spender` may take from `caller` to `amount`, whatever it was.
pub fn approve(ledger: &mut Ledger, caller: &Account, spender: &Account, amount: U256)
    requires
        old(ledger).wf(),
    ensures
        final(ledger).wf(),
        final(ledger)@ == approved(old(ledger)@, caller@, spender@, amount@),
{
    let key = Pair { owner: caller.duplicate(), spender: spender.duplicate() };
    proof {
        lemma_put_views(ledger.allowances.cells(), key@, amount);
    }
    ledger.allowances.set(&key, amount);
}

/// What `spender` may take from `owner`; zero where nothing was approved.
pub fn allowance(ledger: &Ledger, owner: &Account, spender: &Account) -> (r: U256)
    requires
        ledger.wf(),
    ensures
        r@ == read(ledger@.allowances, (owner@, spender@)),
        !ledger@.allowances.contains_key((owner@, spender@)) ==> r@ == 0,
{
    let key = Pair { owner: owner.duplicate(), spender: spender.duplicate() };
    amount_256(&ledger.allowances, &key)
}

} // verus!
