//! A ledger over the cells of a few accounts. The cells are persisted one by
//! one, and a call touches those of one or two accounts: here a ledger is
//! put together from the scalars and those cells, with one cell in each
//! summed table, under the empty account, that stands for all the others.
//! What is put together is well formed, or it is refused.

use crate::amount::{U256, U512};
use crate::ledger::{amount_256, amount_512, Ledger, State};
use crate::table::{lemma_store, read, total, views, Account, Key, Table};
use vstd::prelude::*;

verus! {

/// Every persisted scalar.
pub struct Scalars {
    pub name: String,
    pub symbol: String,
    pub decimals: u8,
    pub total_supply: U256,
    pub total_staked: U512,
    pub vault_total: U512,
    pub ratio: U512,
    pub total_liquid_staked: U512,
    pub order_counter: u64,
    pub admin: Account,
    pub paused: bool,
    pub max_leverage: u32,
}

/// The cells of one account in the tables whose cells are summed, and its
/// derivative balance.
pub struct Holdings {
    pub balance: U256,
    pub stake: U512,
    pub vault_shares: U512,
    pub liquid_stake: U512,
    pub derivative_balance: U512,
}

/// The account that stands for all accounts that were not loaded. No
/// principal has an empty canonical form.
pub open spec fn rest() -> Seq<u8> {
    Seq::empty()
}

/// The ledger with the given scalars in which the rest holds everything.
pub open spec fn opened(s: Scalars) -> State {
    State {
        name: s.name@,
        symbol: s.symbol@,
        decimals: s.decimals,
        total_supply: s.total_supply@,
        balances: Map::<Seq<u8>, nat>::empty().insert(rest(), s.total_supply@),
        allowances: Map::empty(),
        stakes: Map::<Seq<u8>, nat>::empty().insert(
            rest(),
            (s.total_staked@ - s.total_liquid_staked@) as nat,
        ),
        total_staked: s.total_staked@,
        positions: Map::empty(),
        vault_shares: Map::<Seq<u8>, nat>::empty().insert(rest(), s.vault_total@),
        vault_total: s.vault_total@,
        liquid_stakes: Map::<Seq<u8>, nat>::empty().insert(rest(), s.total_liquid_staked@),
        derivative_balances: Map::empty(),
        ratio: s.ratio@,
        total_liquid_staked: s.total_liquid_staked@,
        order_counter: s.order_counter,
        orders: Map::empty(),
        admin: s.admin@,
        paused: s.paused,
        max_leverage: s.max_leverage,
    }
}

/// The rest can give `who` these holdings, and the derivative balance of
/// `who` can take its share.
pub open spec fn can_load(s: State, who: Seq<u8>, h: Holdings) -> bool {
    &&& who != rest()
    &&& read(s.balances, rest()) >= h.balance@
    &&& read(s.stakes, rest()) >= h.stake@
    &&& read(s.vault_shares, rest()) >= h.vault_shares@
    &&& read(s.liquid_stakes, rest()) >= h.liquid_stake@
    &&& read(s.derivative_balances, who) + h.derivative_balance@ < crate::amount::limit_512()
}

/// `m` after `amount` has gone from the rest to `who`.
pub open spec fn shifted(m: Map<Seq<u8>, nat>, who: Seq<u8>, amount: nat) -> Map<Seq<u8>, nat> {
    m.insert(rest(), (read(m, rest()) - amount) as nat).insert(who, read(m, who) + amount)
}

/// The state after `who` was loaded with the holdings `h`: in each summed
/// table they move from the rest to `who`; the derivative balance is added.
pub open spec fn loaded(s: State, who: Seq<u8>, h: Holdings) -> State {
    State {
        balances: shifted(s.balances, who, h.balance@),
        stakes: shifted(s.stakes, who, h.stake@),
        vault_shares: shifted(s.vault_shares, who, h.vault_shares@),
        liquid_stakes: shifted(s.liquid_stakes, who, h.liquid_stake@),
        derivative_balances: s.derivative_balances.insert(
            who,
            read(s.derivative_balances, who) + h.derivative_balance@,
        ),
        ..s
    }
}

fn rest_account() -> (r: Account)
    ensures
        r@ == rest(),
{
    Account::new(Vec::new())
}

fn sole_256(amount: U256) -> (r: Table<Account, U256>)
    ensures
        r.wf(),
        views(r.cells()) == Map::<Seq<u8>, nat>::empty().insert(rest(), amount@),
        total(r.cells()) == amount@,
{
    let mut table: Table<Account, U256> = Table::new();
    proof {
        lemma_store(table.cells(), rest(), amount);
        assert(views(table.cells()) =~= Map::<Seq<u8>, nat>::empty());
    }
    table.set(&rest_account(), amount);
    table
}

fn sole_512(amount: U512) -> (r: Table<Account, U512>)
    ensures
        r.wf(),
        views(r.cells()) == Map::<Seq<u8>, nat>::empty().insert(rest(), amount@),
        total(r.cells()) == amount@,
{
    let mut table: Table<Account, U512> = Table::new();
    proof {
        lemma_store(table.cells(), rest(), amount);
        assert(views(table.cells()) =~= Map::<Seq<u8>, nat>::empty());
    }
    table.set(&rest_account(), amount);
    table
}

fn shift_256(table: &mut Table<Account, U256>, who: &Account, amount: U256, bound: U256)
    requires
        old(table).wf(),
        who@ != rest(),
        read(views(old(table).cells()), rest()) >= amount@,
        total(old(table).cells()) == bound@,
    ensures
        final(table).wf(),
        views(final(table).cells()) == shifted(views(old(table).cells()), who@, amount@),
        total(final(table).cells()) == total(old(table).cells()),
{
    let rest = rest_account();
    let left = amount_256(table, &rest).minus(&amount);
    proof {
        lemma_store(table.cells(), rest@, left);
    }
    table.set(&rest, left);
    let current = amount_256(table, who);
    proof {
        lemma_store(table.cells(), who@, current);
        bound.lemma_bounded();
    }
    let raised = current.plus(&amount);
    proof {
        lemma_store(table.cells(), who@, raised);
    }
    table.set(who, raised);
}

fn shift_512(table: &mut Table<Account, U512>, who: &Account, amount: U512, bound: U512)
    requires
        old(table).wf(),
        who@ != rest(),
        read(views(old(table).cells()), rest()) >= amount@,
        total(old(table).cells()) <= bound@,
    ensures
        final(table).wf(),
        views(final(table).cells()) == shifted(views(old(table).cells()), who@, amount@),
        total(final(table).cells()) == total(old(table).cells()),
{
    let rest = rest_account();
    let left = amount_512(table, &rest).minus(&amount);
    proof {
        lemma_store(table.cells(), rest@, left);
    }
    table.set(&rest, left);
    let current = amount_512(table, who);
    proof {
        lemma_store(table.cells(), who@, current);
        bound.lemma_bounded();
    }
    let raised = current.plus(&amount);
    proof {
        lemma_store(table.cells(), who@, raised);
    }
    table.set(who, raised);
}

/// The ledger with these scalars in which no account has been loaded yet,
/// or `None` where the liquid total exceeds the staked total.
pub fn open(scalars: Scalars) -> (r: Option<Ledger>)
    ensures
        r is Some <==> scalars.total_staked@ >= scalars.total_liquid_staked@,
        r is Some ==> r->0.wf() && r->0@ == opened(scalars),
{
    if scalars.total_staked.less_than(&scalars.total_liquid_staked) {
        return None;
    }
    let direct = scalars.total_staked.minus(&scalars.total_liquid_staked);
    let ledger = Ledger {
        name: scalars.name,
        symbol: scalars.symbol,
        decimals: scalars.decimals,
        total_supply: scalars.total_supply,
        balances: sole_256(scalars.total_supply),
        allowances: Table::new(),
        stakes: sole_512(direct),
        total_staked: scalars.total_staked,
        positions: Table::new(),
        vault_shares: sole_512(scalars.vault_total),
        vault_total: scalars.vault_total,
        liquid_stakes: sole_512(scalars.total_liquid_staked),
        derivative_balances: Table::new(),
        ratio: scalars.ratio,
        total_liquid_staked: scalars.total_liquid_staked,
        order_counter: scalars.order_counter,
        orders: Table::new(),
        admin: scalars.admin,
        paused: scalars.paused,
        max_leverage: scalars.max_leverage,
    };
    proof {
        assert(ledger@.allowances =~= Map::empty());
        assert(ledger@.positions =~= Map::empty());
        assert(ledger@.derivative_balances =~= Map::empty());
        assert(ledger@.orders =~= Map::empty());
    }
    Some(ledger)
}

/// Loads `who` with the holdings `held`, taken from the rest, or refuses
/// and changes nothing where the rest cannot give them. No total changes.
pub fn load(ledger: &mut Ledger, who: &Account, held: &Holdings) -> (ok: bool)
    requires
        old(ledger).wf(),
    ensures
        final(ledger).wf(),
        ok == can_load(old(ledger)@, who@, *held),
        ok ==> final(ledger)@ == loaded(old(ledger)@, who@, *held),
        !ok ==> *final(ledger) == *old(ledger),
{
    let rest = rest_account();
    if who.same(&rest) {
        return false;
    }
    if amount_256(&ledger.balances, &rest).less_than(&held.balance) || amount_512(
        &ledger.stakes,
        &rest,
    ).less_than(&held.stake) || amount_512(&ledger.vault_shares, &rest).less_than(
        &held.vault_shares,
    ) || amount_512(&ledger.liquid_stakes, &rest).less_than(&held.liquid_stake) {
        return false;
    }
    let derivative = amount_512(&ledger.derivative_balances, who);
    if !derivative.sum_fits(&held.derivative_balance) {
        return false;
    }
    shift_256(&mut ledger.balances, who, held.balance, ledger.total_supply);
    shift_512(&mut ledger.stakes, who, held.stake, ledger.total_staked);
    shift_512(&mut ledger.vault_shares, who, held.vault_shares, ledger.vault_total);
    shift_512(&mut ledger.liquid_stakes, who, held.liquid_stake, ledger.total_liquid_staked);
    let credited = derivative.plus(&held.derivative_balance);
    proof {
        lemma_store(ledger.derivative_balances.cells(), who@, credited);
    }
    ledger.derivative_balances.set(who, credited);
    true
}

} // verus!
