//! The order registry: a status ledger of limit and stop orders. It
//! records that an order was cancelled or executed; it enforces nothing.

use crate::amount::U512;
use crate::ledger::{
    Ledger, Order, OrderKind, OrderStatus, OrderView, State, Terms, TermsView,
};
use crate::table::{lemma_put_views, Account, Key, Slot};
use vstd::prelude::*;

verus! {

/// The state after `caller` has placed an order with `terms`: the counter
/// moves up by one and an open order is recorded under the new count.
pub open spec fn order_created(s: State, caller: Seq<u8>, terms: TermsView) -> State {
    State {
        order_counter: (s.order_counter + 1) as u64,
        orders: s.orders.insert(
            (caller, (s.order_counter + 1) as u64),
            OrderView { terms: Some(terms), status: OrderStatus::Open },
        ),
        ..s
    }
}

/// The terms recorded for `owner` under `order_id`, if any.
pub open spec fn terms_of(s: State, owner: Seq<u8>, order_id: u64) -> Option<TermsView> {
    if s.orders.contains_key((owner, order_id)) {
        s.orders[(owner, order_id)].terms
    } else {
        None
    }
}

/// The state after the record of `owner` under `order_id` was marked: its
/// status is overwritten and its terms stay. Where there was no record,
/// one without terms is made.
pub open spec fn order_marked(s: State, owner: Seq<u8>, order_id: u64, mark: OrderStatus) -> State {
    State {
        orders: s.orders.insert(
            (owner, order_id),
            OrderView { terms: terms_of(s, owner, order_id), status: mark },
        ),
        ..s
    }
}

/// Marking a record overwrites its status whatever it was, a terminal one
/// too: after two marks the record shows the second, as if the first had
/// never been made, and through both it keeps its terms.
pub proof fn lemma_mark_overwrites(
    s: State,
    owner: Seq<u8>,
    order_id: u64,
    first: OrderStatus,
    second: OrderStatus,
)
    ensures
        order_marked(order_marked(s, owner, order_id, first), owner, order_id, second)
            == order_marked(s, owner, order_id, second),
        order_marked(s, owner, order_id, second).orders[(owner, order_id)].status == second,
        terms_of(order_marked(s, owner, order_id, second), owner, order_id) == terms_of(
            s,
            owner,
            order_id,
        ),
{
    let key = (owner, order_id);
    let once = OrderView { terms: terms_of(s, owner, order_id), status: first };
    let twice = OrderView { terms: terms_of(s, owner, order_id), status: second };
    assert(s.orders.insert(key, once).insert(key, twice) =~= s.orders.insert(key, twice));
}

/// Whether the order counter can still move up.
pub fn can_create_order(ledger: &Ledger) -> (r: bool)
    ensures
        r == (ledger@.order_counter < u64::MAX),
{
    ledger.order_counter < u64::MAX
}

fn create_order(ledger: &mut Ledger, caller: &Account, terms: Terms) -> (id: u64)
    requires
        old(ledger).wf(),
        old(ledger)@.order_counter < u64::MAX,
    ensures
        final(ledger).wf(),
        id == old(ledger)@.order_counter + 1,
        final(ledger)@ == order_created(old(ledger)@, caller@, terms@),
{
    let id: u64 = ledger.order_counter + 1;
    ledger.order_counter = id;
    let key = Slot { owner: caller.duplicate(), id };
    let order = Order { terms: Some(terms), status: OrderStatus::Open };
    proof {
        lemma_put_views(ledger.orders.cells(), key@, order);
    }
    ledger.orders.set(&key, order);
    id
}

/// Places an open limit order of `caller` and returns its id, one above
/// the counter. `order_type` is 0 to buy and 1 to sell; it is recorded as
/// given. Nothing is held back for the order.
pub fn create_limit_order(
    ledger: &mut Ledger,
    caller: &Account,
    amount: U512,
    price: U512,
    order_type: u8,
) -> (id: u64)
    requires
        old(ledger).wf(),
        old(ledger)@.order_counter < u64::MAX,
    ensures
        final(ledger).wf(),
        id == old(ledger)@.order_counter + 1,
        final(ledger)@ == order_created(
            old(ledger)@,
            caller@,
            TermsView { amount: amount@, price: price@, kind: OrderKind::Limit(order_type) },
        ),
{
    create_order(ledger, caller, Terms { amount, price, kind: OrderKind::Limit(order_type) })
}

/// Places an open stop order of `caller` with the given trigger price and
/// returns its id, one above the counter.
pub fn create_stop_loss(
    ledger: &mut Ledger,
    caller: &Account,
    amount: U512,
    trigger_price: U512,
) -> (id: u64)
    requires
        old(ledger).wf(),
        old(ledger)@.order_counter < u64::MAX,
    ensures
        final(ledger).wf(),
        id == old(ledger)@.order_counter + 1,
        final(ledger)@ == order_created(
            old(ledger)@,
            caller@,
            TermsView { amount: amount@, price: trigger_price@, kind: OrderKind::Stop },
        ),
{
    create_order(ledger, caller, Terms { amount, price: trigger_price, kind: OrderKind::Stop })
}

fn mark(ledger: &mut Ledger, owner: &Account, order_id: u64, status: OrderStatus)
    requires
        old(ledger).wf(),
    ensures
        final(ledger).wf(),
        final(ledger)@ == order_marked(old(ledger)@, owner@, order_id, status),
{
    let key = Slot { owner: owner.duplicate(), id: order_id };
    let terms = match ledger.orders.get(&key) {
        Some(order) => order.terms,
        None => None,
    };
    let order = Order { terms, status };
    proof {
        lemma_put_views(ledger.orders.cells(), key@, order);
    }
    ledger.orders.set(&key, order);
}

/// Sets the status of the record of `caller` under `order_id` to
/// `Cancelled`, whatever it was: open or terminal. The terms stay. Where
/// no order was placed under that key, a record without terms is made.
pub fn cancel_order(ledger: &mut Ledger, caller: &Account, order_id: u64)
    requires
        old(ledger).wf(),
    ensures
        final(ledger).wf(),
        final(ledger)@ == order_marked(old(ledger)@, caller@, order_id, OrderStatus::Cancelled),
{
    mark(ledger, caller, order_id, OrderStatus::Cancelled)
}

/// Sets the status of the record of `owner` under `order_id` to
/// `Executed`, whatever it was. The terms stay, and no price or trigger is
/// looked at. Where no order was placed under that key, a record without
/// terms is made.
pub fn execute_order(ledger: &mut Ledger, order_id: u64, owner: &Account)
    requires
        old(ledger).wf(),
    ensures
        final(ledger).wf(),
        final(ledger)@ == order_marked(old(ledger)@, owner@, order_id, OrderStatus::Executed),
{
    mark(ledger, owner, order_id, OrderStatus::Executed)
}

/// The record of `owner` under `order_id`, if there is one.
pub fn get_order(ledger: &Ledger, owner: &Account, order_id: u64) -> (r: Option<Order>)
    requires
        ledger.wf(),
    ensures
        match r {
            Some(order) => ledger@.orders.contains_key((owner@, order_id)) && ledger@.orders[(
                owner@,
                order_id,
            )] == order@,
            None => !ledger@.orders.contains_key((owner@, order_id)),
        },
{
    let key = Slot { owner: owner.duplicate(), id: order_id };
    ledger.orders.get(&key)
}

} // verus!
