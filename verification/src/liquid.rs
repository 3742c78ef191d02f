//! The liquid-staking engine: underlying stake is turned into a derivative
//! token and back through one global ratio in fixed point.

use crate::amount::{limit_512, U512};
use crate::ledger::{amount_512, Error, Ledger, State, RATIO_SCALE};
use crate::table::{lemma_store, read, Account};
use vstd::prelude::*;

verus! {

/// The derivative minted for `amount` of underlying: one for one at ratio
/// zero, else `amount * 1,000,000 / ratio`, rounded down.
pub open spec fn minted(ratio: nat, amount: nat) -> nat {
    if ratio == 0 {
        amount
    } else {
        amount * 1_000_000 / ratio
    }
}

/// The underlying returned for `derivative`: one for one at ratio zero,
/// else `derivative * ratio / 1,000,000`, rounded down.
pub open spec fn returned(ratio: nat, derivative: nat) -> nat {
    if ratio == 0 {
        derivative
    } else {
        derivative * ratio / 1_000_000
    }
}

/// Staking `amount` for the derivative keeps every number within 512 bits.
pub open spec fn liquid_stake_fits(s: State, caller: Seq<u8>, amount: nat) -> bool {
    &&& s.total_staked + amount < limit_512()
    &&& s.ratio != 0 ==> amount * 1_000_000 < limit_512()
    &&& read(s.derivative_balances, caller) + minted(s.ratio, amount) < limit_512()
}

/// The state after `caller` has staked `amount` for the derivative.
pub open spec fn liquid_staked(s: State, caller: Seq<u8>, amount: nat) -> State {
    State {
        liquid_stakes: s.liquid_stakes.insert(caller, read(s.liquid_stakes, caller) + amount),
        derivative_balances: s.derivative_balances.insert(
            caller,
            read(s.derivative_balances, caller) + minted(s.ratio, amount),
        ),
        total_liquid_staked: s.total_liquid_staked + amount,
        total_staked: s.total_staked + amount,
        ..s
    }
}

/// Burning `derivative` is covered: the caller holds that much derivative
/// and has contributed at least the underlying it returns.
pub open spec fn liquid_unstake_covered(s: State, caller: Seq<u8>, derivative: nat) -> bool {
    &&& read(s.derivative_balances, caller) >= derivative
    &&& read(s.liquid_stakes, caller) >= returned(s.ratio, derivative)
}

/// The state after `caller` has burnt `derivative`: the derivative balance
/// falls by `derivative`, the three underlying figures by what it returns.
pub open spec fn liquid_unstaked(s: State, caller: Seq<u8>, derivative: nat) -> State {
    let underlying = returned(s.ratio, derivative);
    State {
        derivative_balances: s.derivative_balances.insert(
            caller,
            (read(s.derivative_balances, caller) - derivative) as nat,
        ),
        liquid_stakes: s.liquid_stakes.insert(
            caller,
            (read(s.liquid_stakes, caller) - underlying) as nat,
        ),
        total_liquid_staked: (s.total_liquid_staked - underlying) as nat,
        total_staked: (s.total_staked - underlying) as nat,
        ..s
    }
}

/// Minting and then burning what was minted, at one ratio, never returns
/// more than was staked: both conversions round down.
pub proof fn lemma_round_trip(ratio: nat, amount: nat)
    ensures
        returned(ratio, minted(ratio, amount)) <= amount,
        ratio != 0 ==> returned(ratio, minted(ratio, amount)) == (amount * 1_000_000 / ratio)
            * ratio / 1_000_000,
{
    if ratio != 0 {
        let scaled = amount * 1_000_000;
        let q = scaled / ratio;
        assert(q * ratio <= scaled) by (nonlinear_arith)
            requires
                q == scaled / ratio,
                ratio > 0,
        ;
        assert((q * ratio) / 1_000_000 <= amount) by (nonlinear_arith)
            requires
                q * ratio <= amount * 1_000_000,
        ;
    }
}

/// Staking `amount` and then burning all the derivative it minted, with
/// the ratio unchanged, is always covered; it leaves the caller's
/// derivative balance as it was and no underlying figure lower than before.
pub proof fn lemma_round_trip_keeps_underlying(s: State, caller: Seq<u8>, amount: nat)
    ensures
        ({
            let derivative = minted(s.ratio, amount);
            let between = liquid_staked(s, caller, amount);
            let after = liquid_unstaked(between, caller, derivative);
            &&& liquid_unstake_covered(between, caller, derivative)
            &&& read(after.derivative_balances, caller) == read(s.derivative_balances, caller)
            &&& read(s.liquid_stakes, caller) <= read(after.liquid_stakes, caller)
                <= read(s.liquid_stakes, caller) + amount
            &&& s.total_liquid_staked <= after.total_liquid_staked
            &&& s.total_staked <= after.total_staked
        }),
{
    lemma_round_trip(s.ratio, amount);
}

/// The derivative that `amount` of underlying mints at `ratio`.
fn mint_for(ratio: &U512, amount: &U512) -> (r: U512)
    requires
        ratio@ != 0 ==> amount@ * 1_000_000 < limit_512(),
    ensures
        r@ == minted(ratio@, amount@),
{
    if ratio.is_zero() {
        *amount
    } else {
        amount.times(&U512::from_u64(RATIO_SCALE)).divided_by(ratio)
    }
}

/// A product divided by the scale, from the quotients and remainders of
/// its factors: with `d = q * 1,000,000 + r`, the quotient of `d * ratio`
/// is `q * ratio` and the quotient of `r * ratio`.
pub proof fn lemma_scaled_product(d: nat, ratio: nat)
    ensures
        d * ratio / 1_000_000 == (d / 1_000_000) * ratio + (d % 1_000_000) * (ratio / 1_000_000)
            + (d % 1_000_000) * (ratio % 1_000_000) / 1_000_000,
        (d % 1_000_000) * (ratio % 1_000_000) < 1_000_000 * 1_000_000,
{
    let q = d / 1_000_000;
    let r = d % 1_000_000;
    let q2 = ratio / 1_000_000;
    let r2 = ratio % 1_000_000;
    let a = q * ratio + r * q2;
    let b = r * r2;
    assert(d * ratio == b + a * 1_000_000) by (nonlinear_arith)
        requires
            d == q * 1_000_000 + r,
            ratio == q2 * 1_000_000 + r2,
            a == q * ratio + r * q2,
            b == r * r2,
    ;
    assert(b < 1_000_000 * 1_000_000) by (nonlinear_arith)
        requires
            b == r * r2,
            r < 1_000_000,
            r2 < 1_000_000,
    ;
    vstd::arithmetic::div_mod::lemma_hoist_over_denominator(b as int, a as int, 1_000_000);
}

/// The underlying that `derivative` returns at `ratio`, or `None` where it
/// does not fit in 512 bits. Where the product of the two fits, it is
/// divided by the scale; where it does not, the quotient is put together
/// from the quotients and remainders of the factors.
fn return_for(ratio: &U512, derivative: &U512) -> (r: Option<U512>)
    ensures
        match r {
            Some(u) => u@ == returned(ratio@, derivative@),
            None => returned(ratio@, derivative@) >= limit_512(),
        },
{
    if ratio.is_zero() {
        return Some(*derivative);
    }
    let scale = U512::from_u64(RATIO_SCALE);
    if let Some(product) = derivative.checked_mul(ratio) {
        return Some(product.divided_by(&scale));
    }
    proof {
        lemma_scaled_product(derivative@, ratio@);
        derivative.lemma_bounded();
        ratio.lemma_bounded();
    }
    let whole = derivative.divided_by(&scale);
    let part = derivative.minus(&whole.times(&scale));
    let ratio_whole = ratio.divided_by(&scale);
    let ratio_part = ratio.minus(&ratio_whole.times(&scale));
    let small = part.times(&ratio_part).divided_by(&scale);
    let first = match whole.checked_mul(ratio) {
        Some(first) => first,
        None => {
            return None;
        },
    };
    let second = match part.checked_mul(&ratio_whole) {
        Some(second) => second,
        None => {
            return None;
        },
    };
    match first.checked_add(&second) {
        Some(sum) => sum.checked_add(&small),
        None => None,
    }
}

/// Whether `stake_for_liquid` may be called with these arguments.
pub fn can_stake_for_liquid(ledger: &Ledger, caller: &Account, amount: &U512) -> (r: bool)
    requires
        ledger.wf(),
    ensures
        r == liquid_stake_fits(ledger@, caller@, amount@),
{
    if !ledger.total_staked.sum_fits(amount) {
        return false;
    }
    if !ledger.ratio.is_zero() && !amount.product_fits(&U512::from_u64(RATIO_SCALE)) {
        return false;
    }
    let derivative = mint_for(&ledger.ratio, amount);
    amount_512(&ledger.derivative_balances, caller).sum_fits(&derivative)
}

/// Stakes `amount` for the derivative: the caller's contribution, the
/// liquid total and the staked total each grow by `amount`, the caller's
/// derivative balance by what `amount` mints at the current ratio.
pub fn stake_for_liquid(ledger: &mut Ledger, caller: &Account, amount: U512)
    requires
        old(ledger).wf(),
        liquid_stake_fits(old(ledger)@, caller@, amount@),
    ensures
        final(ledger).wf(),
        final(ledger)@ == liquid_staked(old(ledger)@, caller@, amount@),
        final(ledger)@.total_staked == final(ledger).sum_stakes()
            + final(ledger)@.total_liquid_staked,
{
    let derivative = mint_for(&ledger.ratio, &amount);
    let current = amount_512(&ledger.liquid_stakes, caller);
    proof {
        lemma_store(ledger.liquid_stakes.cells(), caller@, current);
    }
    let contributed = current.plus(&amount);
    proof {
        lemma_store(ledger.liquid_stakes.cells(), caller@, contributed);
    }
    ledger.liquid_stakes.set(caller, contributed);
    let balance = amount_512(&ledger.derivative_balances, caller).plus(&derivative);
    proof {
        lemma_store(ledger.derivative_balances.cells(), caller@, balance);
    }
    ledger.derivative_balances.set(caller, balance);
    ledger.total_liquid_staked = ledger.total_liquid_staked.plus(&amount);
    ledger.total_staked = ledger.total_staked.plus(&amount);
}

/// Burns `derivative_amount` of the caller's derivative and releases the
/// underlying it stands for at the current ratio, or refuses and changes
/// nothing where the caller holds less derivative, or has contributed less
/// underlying, than that. No direct stake changes.
pub fn unstake_liquid(ledger: &mut Ledger, caller: &Account, derivative_amount: U512) -> (r:
    Result<(), Error>)
    requires
        old(ledger).wf(),
    ensures
        final(ledger).wf(),
        r is Ok <==> liquid_unstake_covered(old(ledger)@, caller@, derivative_amount@),
        r is Ok ==> final(ledger)@ == liquid_unstaked(old(ledger)@, caller@, derivative_amount@),
        r is Err ==> r == Err::<(), Error>(Error::InsufficientBalance) && *final(ledger) == *old(
            ledger,
        ),
        final(ledger)@.total_staked == final(ledger).sum_stakes()
            + final(ledger)@.total_liquid_staked,
        final(ledger).sum_stakes() == old(ledger).sum_stakes(),
{
    let balance = amount_512(&ledger.derivative_balances, caller);
    if balance.less_than(&derivative_amount) {
        return Err(Error::InsufficientBalance);
    }
    let current = amount_512(&ledger.liquid_stakes, caller);
    let underlying = match return_for(&ledger.ratio, &derivative_amount) {
        Some(underlying) => underlying,
        None => {
            proof {
                current.lemma_bounded();
            }
            return Err(Error::InsufficientBalance);
        },
    };
    if current.less_than(&underlying) {
        return Err(Error::InsufficientBalance);
    }
    let burnt = balance.minus(&derivative_amount);
    proof {
        lemma_store(ledger.derivative_balances.cells(), caller@, burnt);
    }
    ledger.derivative_balances.set(caller, burnt);
    let released = current.minus(&underlying);
    proof {
        lemma_store(ledger.liquid_stakes.cells(), caller@, released);
    }
    ledger.liquid_stakes.set(caller, released);
    ledger.total_liquid_staked = ledger.total_liquid_staked.minus(&underlying);
    ledger.total_staked = ledger.total_staked.minus(&underlying);
    Ok(())
}

/// The ratio in force, in units of one millionth.
pub fn get_liquid_stake_ratio(ledger: &Ledger) -> (r: U512)
    ensures
        r@ == ledger@.ratio,
{
    ledger.ratio
}

/// Replaces the ratio; nothing else changes.
pub fn set_liquid_stake_ratio(ledger: &mut Ledger, ratio: U512)
    requires
        old(ledger).wf(),
    ensures
        final(ledger).wf(),
        final(ledger)@ == (State { ratio: ratio@, ..old(ledger)@ }),
{
    ledger.ratio = ratio;
}

/// The derivative balance of `owner`; zero for an account that never
/// held any.
pub fn get_stcspr_balance(ledger: &Ledger, owner: &Account) -> (r: U512)
    requires
        ledger.wf(),
    ensures
        r@ == read(ledger@.derivative_balances, owner@),
        !ledger@.derivative_balances.contains_key(owner@) ==> r@ == 0,
{
    amount_512(&ledger.derivative_balances, owner)
}

/// The underlying that `owner` has contributed; zero for an account that
/// never staked for the derivative.
pub fn get_liquid_stake(ledger: &Ledger, owner: &Account) -> (r: U512)
    requires
        ledger.wf(),
    ensures
        r@ == read(ledger@.liquid_stakes, owner@),
{
    amount_512(&ledger.liquid_stakes, owner)
}

} // verus!
