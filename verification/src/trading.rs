//! The position ledger: the notional size of each leveraged position.

use crate::amount::{limit_512, U512};
use crate::ledger::{amount_512, Ledger, State};
use crate::table::{lemma_put_views, read, Account, Key, Slot};
use vstd::prelude::*;

verus! {

/// Whether the notional size `amount * leverage` fits in 512 bits.
pub fn can_open_position(amount: &U512, leverage: u32) -> (r: bool)
    ensures
        r == (amount@ * leverage < limit_512()),
{
    amount.product_fits(&U512::from_u64(leverage as u64))
}

/// Records a position of `caller` under `position_id` with the notional
/// size `amount * leverage`, over whatever that id held before.
pub fn open_position(
    ledger: &mut Ledger,
    caller: &Account,
    amount: U512,
    leverage: u32,
    position_id: u64,
)
    requires
        old(ledger).wf(),
        amount@ * leverage < limit_512(),
    ensures
        final(ledger).wf(),
        final(ledger)@ == (State {
            positions: old(ledger)@.positions.insert(
                (caller@, position_id),
                amount@ * (leverage as nat),
            ),
            ..old(ledger)@
        }),
{
    let key = Slot { owner: caller.duplicate(), id: position_id };
    let size = amount.times(&U512::from_u64(leverage as u64));
    proof {
        lemma_put_views(ledger.positions.cells(), key@, size);
    }
    ledger.positions.set(&key, size);
}

/// Sets the size of the position of `caller` under `position_id` to zero,
/// whether or not such a position was ever opened. The record stays.
pub fn close_position(ledger: &mut Ledger, caller: &Account, position_id: u64)
    requires
        old(ledger).wf(),
    ensures
        final(ledger).wf(),
        final(ledger)@ == (State {
            positions: old(ledger)@.positions.insert((caller@, position_id), 0),
            ..old(ledger)@
        }),
{
    let key = Slot { owner: caller.duplicate(), id: position_id };
    let size = U512::zero();
    proof {
        lemma_put_views(ledger.positions.cells(), key@, size);
    }
    ledger.positions.set(&key, size);
}

/// The size of the position of `owner` under `position_id`; zero where
/// none was opened or it was closed.
pub fn get_position(ledger: &Ledger, owner: &Account, position_id: u64) -> (r: U512)
    requires
        ledger.wf(),
    ensures
        r@ == read(ledger@.positions, (owner@, position_id)),
{
    let key = Slot { owner: owner.duplicate(), id: position_id };
    amount_512(&ledger.positions, &key)
}

} // verus!
