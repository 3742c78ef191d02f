//! The ledger: every persisted scalar and every keyed cell, its
//! mathematical view, and the invariants that tie the cells to the totals.

use crate::amount::{U256, U512};
use crate::table::{read, total, views, Account, Key, Pair, Slot, Table};
use vstd::prelude::*;

verus! {

/// Why an operation was refused.
#[derive(Clone, Copy, Debug, PartialEq, Eq)]
pub enum Error {
    InsufficientBalance,
    InsufficientAllowance,
    Unauthorized,
    ContractPaused,
    InvalidAmount,
}

impl Error {
    /// The code under which the failure is reported to a caller.
    pub fn code(&self) -> (r: u16)
        ensures
            r == match *self {
                Error::InsufficientBalance => 1u16,
                Error::InsufficientAllowance => 2u16,
                Error::Unauthorized => 3u16,
                Error::ContractPaused => 4u16,
                Error::InvalidAmount => 5u16,
            },
    {
        match self {
            Error::InsufficientBalance => 1,
            Error::InsufficientAllowance => 2,
            Error::Unauthorized => 3,
            Error::ContractPaused => 4,
            Error::InvalidAmount => 5,
        }
    }
}

/// What an order asks for: a limit order carries the side it was given
/// (0 buys, 1 sells), a stop order has none.
#[derive(Clone, Copy, Debug, PartialEq, Eq)]
pub enum OrderKind {
    Limit(u8),
    Stop,
}

/// Where an order stands. `Cancelled` and `Executed` are terminal.
#[derive(Clone, Copy, Debug, PartialEq, Eq)]
pub enum OrderStatus {
    Open,
    Cancelled,
    Executed,
}

/// The terms an order was placed with: for a stop order the price is the
/// trigger price.
#[derive(Clone, Copy, Debug, PartialEq, Eq)]
pub struct Terms {
    pub amount: U512,
    pub price: U512,
    pub kind: OrderKind,
}

/// The record of an order: its terms and where it stands. A record that
/// was marked under a key where no order had been placed has no terms.
#[derive(Clone, Copy, Debug, PartialEq, Eq)]
pub struct Order {
    pub terms: Option<Terms>,
    pub status: OrderStatus,
}

/// The terms of an order over numbers.
pub ghost struct TermsView {
    pub amount: nat,
    pub price: nat,
    pub kind: OrderKind,
}

/// The record of an order over numbers.
pub ghost struct OrderView {
    pub terms: Option<TermsView>,
    pub status: OrderStatus,
}

impl View for Terms {
    type V = TermsView;

    open spec fn view(&self) -> TermsView {
        TermsView { amount: self.amount@, price: self.price@, kind: self.kind }
    }
}

impl View for Order {
    type V = OrderView;

    open spec fn view(&self) -> OrderView {
        OrderView {
            terms: match self.terms {
                Some(terms) => Some(terms@),
                None => None,
            },
            status: self.status,
        }
    }
}

impl Order {
    pub fn status(&self) -> (r: OrderStatus)
        ensures
            r == self@.status,
    {
        self.status
    }
}

/// The ledger as mathematics: scalars as numbers, keyed cells as maps.
/// A key without an entry reads as zero.
pub ghost struct State {
    pub name: Seq<char>,
    pub symbol: Seq<char>,
    pub decimals: u8,
    pub total_supply: nat,
    pub balances: Map<Seq<u8>, nat>,
    pub allowances: Map<(Seq<u8>, Seq<u8>), nat>,
    pub stakes: Map<Seq<u8>, nat>,
    pub total_staked: nat,
    pub positions: Map<(Seq<u8>, u64), nat>,
    pub vault_shares: Map<Seq<u8>, nat>,
    pub vault_total: nat,
    pub liquid_stakes: Map<Seq<u8>, nat>,
    pub derivative_balances: Map<Seq<u8>, nat>,
    pub ratio: nat,
    pub total_liquid_staked: nat,
    pub order_counter: u64,
    pub orders: Map<(Seq<u8>, u64), OrderView>,
    pub admin: Seq<u8>,
    pub paused: bool,
    pub max_leverage: u32,
}

/// The scale of the liquid-staking ratio: a ratio of 1,000,000 is 1:1.
pub const RATIO_SCALE: u64 = 1_000_000;

/// The decimals every token is created with.
pub const DECIMALS: u8 = 9;

/// The leverage cap every ledger is created with.
pub const MAX_LEVERAGE: u32 = 100;

/// All persisted state.
pub struct Ledger {
    pub name: String,
    pub symbol: String,
    pub decimals: u8,
    pub total_supply: U256,
    pub balances: Table<Account, U256>,
    pub allowances: Table<Pair, U256>,
    pub stakes: Table<Account, U512>,
    pub total_staked: U512,
    pub positions: Table<Slot, U512>,
    pub vault_shares: Table<Account, U512>,
    pub vault_total: U512,
    pub liquid_stakes: Table<Account, U512>,
    pub derivative_balances: Table<Account, U512>,
    pub ratio: U512,
    pub total_liquid_staked: U512,
    pub order_counter: u64,
    pub orders: Table<Slot, Order>,
    pub admin: Account,
    pub paused: bool,
    pub max_leverage: u32,
}

impl View for Ledger {
    type V = State;

    open spec fn view(&self) -> State {
        State {
            name: self.name@,
            symbol: self.symbol@,
            decimals: self.decimals,
            total_supply: self.total_supply@,
            balances: views(self.balances.cells()),
            allowances: views(self.allowances.cells()),
            stakes: views(self.stakes.cells()),
            total_staked: self.total_staked@,
            positions: views(self.positions.cells()),
            vault_shares: views(self.vault_shares.cells()),
            vault_total: self.vault_total@,
            liquid_stakes: views(self.liquid_stakes.cells()),
            derivative_balances: views(self.derivative_balances.cells()),
            ratio: self.ratio@,
            total_liquid_staked: self.total_liquid_staked@,
            order_counter: self.order_counter,
            orders: views(self.orders.cells()),
            admin: self.admin@,
            paused: self.paused,
            max_leverage: self.max_leverage,
        }
    }
}

impl Ledger {
    /// The sum of all balances.
    pub open spec fn sum_balances(&self) -> nat {
        total(self.balances.cells())
    }

    /// The sum of all direct stakes.
    pub open spec fn sum_stakes(&self) -> nat {
        total(self.stakes.cells())
    }

    /// The sum of all vault shares.
    pub open spec fn sum_vault_shares(&self) -> nat {
        total(self.vault_shares.cells())
    }

    /// The sum of the underlying that all liquid stakers have contributed.
    pub open spec fn sum_liquid_stakes(&self) -> nat {
        total(self.liquid_stakes.cells())
    }

    /// No table holds a key twice, and every total is the sum of its cells:
    /// the balances make up the supply, the vault shares the vault total,
    /// the liquid stakes the liquid total, and the direct stakes together
    /// with the liquid total the staked total.
    pub open spec fn wf(&self) -> bool {
        &&& self.balances.wf()
        &&& self.allowances.wf()
        &&& self.stakes.wf()
        &&& self.positions.wf()
        &&& self.vault_shares.wf()
        &&& self.liquid_stakes.wf()
        &&& self.derivative_balances.wf()
        &&& self.orders.wf()
        &&& self.sum_balances() == self.total_supply@
        &&& self.sum_stakes() + self.total_liquid_staked@ == self.total_staked@
        &&& self.sum_vault_shares() == self.vault_total@
        &&& self.sum_liquid_stakes() == self.total_liquid_staked@
    }
}

/// The amount under `key`, zero where the table has no cell for it.
pub fn amount_256<K: Key>(table: &Table<K, U256>, key: &K) -> (r: U256)
    requires
        table.wf(),
    ensures
        r@ == read(views(table.cells()), key@),
{
    match table.get(key) {
        Some(v) => v,
        None => U256::zero(),
    }
}

/// The amount under `key`, zero where the table has no cell for it.
pub fn amount_512<K: Key>(table: &Table<K, U512>, key: &K) -> (r: U512)
    requires
        table.wf(),
    ensures
        r@ == read(views(table.cells()), key@),
{
    match table.get(key) {
        Some(v) => v,
        None => U512::zero(),
    }
}

/// The state right after creation: the whole supply with the deployer, who
/// is the admin; a 1:1 ratio; every other total and counter at zero.
pub open spec fn genesis(
    deployer: Seq<u8>,
    name: Seq<char>,
    symbol: Seq<char>,
    supply: nat,
) -> State {
    State {
        name,
        symbol,
        decimals: DECIMALS,
        total_supply: supply,
        balances: Map::<Seq<u8>, nat>::empty().insert(deployer, supply),
        allowances: Map::empty(),
        stakes: Map::empty(),
        total_staked: 0,
        positions: Map::empty(),
        vault_shares: Map::empty(),
        vault_total: 0,
        liquid_stakes: Map::empty(),
        derivative_balances: Map::empty(),
        ratio: RATIO_SCALE as nat,
        total_liquid_staked: 0,
        order_counter: 0,
        orders: Map::empty(),
        admin: deployer,
        paused: false,
        max_leverage: MAX_LEVERAGE,
    }
}

/// Creates the ledger and mints the whole supply to the deployer.
pub fn call(deployer: &Account, token_name: String, token_symbol: String, total_supply: U256) -> (r:
    Ledger)
    ensures
        r.wf(),
        r@ == genesis(deployer@, token_name@, token_symbol@, total_supply@),
{
    let mut balances: Table<Account, U256> = Table::new();
    proof {
        crate::table::lemma_put_views(balances.cells(), deployer@, total_supply);
        crate::table::lemma_put_total(balances.cells(), deployer@, total_supply);
        assert(views(balances.cells()) =~= Map::<Seq<u8>, nat>::empty());
    }
    balances.set(deployer, total_supply);
    let r = Ledger {
        name: token_name,
        symbol: token_symbol,
        decimals: DECIMALS,
        total_supply,
        balances,
        allowances: Table::new(),
        stakes: Table::new(),
        total_staked: U512::zero(),
        positions: Table::new(),
        vault_shares: Table::new(),
        vault_total: U512::zero(),
        liquid_stakes: Table::new(),
        derivative_balances: Table::new(),
        ratio: U512::from_u64(RATIO_SCALE),
        total_liquid_staked: U512::zero(),
        order_counter: 0,
        orders: Table::new(),
        admin: deployer.duplicate(),
        paused: false,
        max_leverage: MAX_LEVERAGE,
    };
    proof {
        assert(r@.allowances =~= Map::empty());
        assert(r@.stakes =~= Map::empty());
        assert(r@.positions =~= Map::empty());
        assert(r@.vault_shares =~= Map::empty());
        assert(r@.liquid_stakes =~= Map::empty());
        assert(r@.derivative_balances =~= Map::empty());
        assert(r@.orders =~= Map::empty());
    }
    r
}

} // verus!
