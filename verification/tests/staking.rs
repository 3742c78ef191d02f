use casperflow::amount::{U256, U512};
use casperflow::ledger::{call, Error, Ledger};
use casperflow::staking::{can_stake, get_stake, stake, unstake};
use casperflow::table::Account;
use casperflow::trading::{can_open_position, close_position, get_position, open_position};
use casperflow::vault::{can_deposit, get_vault_shares, vault_deposit, vault_withdraw};

fn account(id: &str) -> Account {
    Account::new(id.as_bytes().to_vec())
}

fn fresh() -> Ledger {
    call(&account("admin"), String::from("Flow"), String::from("FLW"), U256::from_u64(1_000))
}

#[test]
fn stake_adds_to_the_account_and_the_total() {
    let mut ledger = fresh();
    assert!(can_stake(&ledger, &U512::from_u64(100)));
    stake(&mut ledger, &account("a"), U512::from_u64(100));
    stake(&mut ledger, &account("a"), U512::from_u64(50));
    stake(&mut ledger, &account("b"), U512::from_u64(7));
    assert_eq!(get_stake(&ledger, &account("a")), U512::from_u64(150));
    assert_eq!(get_stake(&ledger, &account("b")), U512::from_u64(7));
    assert_eq!(get_stake(&ledger, &account("c")), U512::zero());
    assert_eq!(ledger.total_staked, U512::from_u64(157));
}

#[test]
fn stake_of_nothing_is_accepted() {
    let mut ledger = fresh();
    stake(&mut ledger, &account("a"), U512::zero());
    assert_eq!(get_stake(&ledger, &account("a")), U512::zero());
    assert_eq!(ledger.total_staked, U512::zero());
}

#[test]
fn unstake_of_more_than_the_stake_is_refused() {
    let mut ledger = fresh();
    stake(&mut ledger, &account("a"), U512::from_u64(100));
    let done = unstake(&mut ledger, &account("a"), U512::from_u64(150));
    assert_eq!(done, Err(Error::InsufficientBalance));
    assert_eq!(get_stake(&ledger, &account("a")), U512::from_u64(100));
    assert_eq!(ledger.total_staked, U512::from_u64(100));
}

#[test]
fn unstake_takes_from_the_account_and_the_total() {
    let mut ledger = fresh();
    stake(&mut ledger, &account("a"), U512::from_u64(100));
    stake(&mut ledger, &account("b"), U512::from_u64(40));
    assert_eq!(unstake(&mut ledger, &account("a"), U512::from_u64(30)), Ok(()));
    assert_eq!(get_stake(&ledger, &account("a")), U512::from_u64(70));
    assert_eq!(ledger.total_staked, U512::from_u64(110));
    assert_eq!(unstake(&mut ledger, &account("a"), U512::from_u64(70)), Ok(()));
    assert_eq!(get_stake(&ledger, &account("a")), U512::zero());
    assert_eq!(unstake(&mut ledger, &account("c"), U512::from_u64(1)), Err(Error::InsufficientBalance));
    assert_eq!(unstake(&mut ledger, &account("c"), U512::zero()), Ok(()));
    assert_eq!(ledger.total_staked, U512::from_u64(40));
}

#[test]
fn total_staked_is_the_sum_of_the_stakes() {
    let mut ledger = fresh();
    let names = ["a", "b", "c"];
    let steps = [(0, 100u64, true), (1, 30, true), (0, 40, false), (2, 5, false), (2, 9, true), (1, 30, false)];
    for (who, amount, add) in steps {
        if add {
            stake(&mut ledger, &account(names[who]), U512::from_u64(amount));
        } else {
            let _ = unstake(&mut ledger, &account(names[who]), U512::from_u64(amount));
        }
        let mut sum = 0u64;
        for n in names {
            sum += get_stake(&ledger, &account(n)).limbs[0];
        }
        assert_eq!(ledger.total_staked, U512::from_u64(sum));
    }
    assert_eq!(ledger.total_staked, U512::from_u64(69));
}

#[test]
fn stake_carries_between_limbs_and_stops_at_the_width() {
    let mut ledger = fresh();
    stake(&mut ledger, &account("a"), U512::from_u64(u64::MAX));
    stake(&mut ledger, &account("a"), U512::from_u64(1));
    assert_eq!(get_stake(&ledger, &account("a")), U512::from_limbs([0, 1, 0, 0, 0, 0, 0, 0]));
    assert_eq!(unstake(&mut ledger, &account("a"), U512::from_u64(1)), Ok(()));
    assert_eq!(get_stake(&ledger, &account("a")), U512::from_u64(u64::MAX));
    let mut top = [u64::MAX; 8];
    top[0] = 0;
    assert!(can_stake(&ledger, &U512::from_limbs(top)));
    top[0] = 1;
    assert!(!can_stake(&ledger, &U512::from_limbs(top)));
}

#[test]
fn vault_deposit_and_withdraw() {
    let mut ledger = fresh();
    assert!(can_deposit(&ledger, &U512::from_u64(10)));
    vault_deposit(&mut ledger, &account("a"), U512::from_u64(10));
    vault_deposit(&mut ledger, &account("b"), U512::from_u64(4));
    assert_eq!(get_vault_shares(&ledger, &account("a")), U512::from_u64(10));
    assert_eq!(ledger.vault_total, U512::from_u64(14));
    assert_eq!(vault_withdraw(&mut ledger, &account("a"), U512::from_u64(11)), Err(Error::InsufficientBalance));
    assert_eq!(get_vault_shares(&ledger, &account("a")), U512::from_u64(10));
    assert_eq!(ledger.vault_total, U512::from_u64(14));
    assert_eq!(vault_withdraw(&mut ledger, &account("a"), U512::from_u64(10)), Ok(()));
    assert_eq!(get_vault_shares(&ledger, &account("a")), U512::zero());
    assert_eq!(get_vault_shares(&ledger, &account("b")), U512::from_u64(4));
    assert_eq!(ledger.vault_total, U512::from_u64(4));
    assert!(!can_deposit(&ledger, &U512::from_limbs([u64::MAX; 8])));
}

#[test]
fn position_size_is_amount_times_leverage() {
    let mut ledger = fresh();
    assert!(can_open_position(&U512::from_u64(250), 20));
    open_position(&mut ledger, &account("a"), U512::from_u64(250), 20, 77);
    assert_eq!(get_position(&ledger, &account("a"), 77), U512::from_u64(5_000));
    assert_eq!(get_position(&ledger, &account("b"), 77), U512::zero());
    assert_eq!(get_position(&ledger, &account("a"), 78), U512::zero());
    open_position(&mut ledger, &account("a"), U512::from_u64(u64::MAX), 2, 78);
    assert_eq!(get_position(&ledger, &account("a"), 78), U512::from_limbs([u64::MAX - 1, 1, 0, 0, 0, 0, 0, 0]));
    assert!(!can_open_position(&U512::from_limbs([u64::MAX; 8]), 2));
    assert!(can_open_position(&U512::from_limbs([u64::MAX; 8]), 1));
    assert!(can_open_position(&U512::from_limbs([u64::MAX; 8]), 0));
}

#[test]
fn a_second_position_under_one_id_replaces_the_first() {
    let mut ledger = fresh();
    open_position(&mut ledger, &account("a"), U512::from_u64(10), 3, 5);
    open_position(&mut ledger, &account("a"), U512::from_u64(1), 2, 5);
    assert_eq!(get_position(&ledger, &account("a"), 5), U512::from_u64(2));
}

#[test]
fn closing_sets_the_size_to_zero() {
    let mut ledger = fresh();
    open_position(&mut ledger, &account("a"), U512::from_u64(10), 3, 5);
    close_position(&mut ledger, &account("b"), 5);
    assert_eq!(get_position(&ledger, &account("a"), 5), U512::from_u64(30));
    close_position(&mut ledger, &account("a"), 5);
    assert_eq!(get_position(&ledger, &account("a"), 5), U512::zero());
    close_position(&mut ledger, &account("a"), 99);
    assert_eq!(get_position(&ledger, &account("a"), 99), U512::zero());
}
