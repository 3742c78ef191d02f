use casperflow::amount::U256;
use casperflow::ledger::{call, Error, Ledger};
use casperflow::table::Account;
use casperflow::token::{
    allowance, approve, balance_of, decimals, name, symbol, total_supply, transfer,
};

fn account(id: &str) -> Account {
    Account::new(id.as_bytes().to_vec())
}

fn fresh(supply: u64) -> Ledger {
    call(&account("admin"), String::from("Flow"), String::from("FLW"), U256::from_u64(supply))
}

#[test]
fn genesis_mints_the_supply_to_the_deployer() {
    let ledger = fresh(1_000_000);
    assert_eq!(name(&ledger), "Flow");
    assert_eq!(symbol(&ledger), "FLW");
    assert_eq!(decimals(&ledger), 9);
    assert_eq!(total_supply(&ledger), U256::from_u64(1_000_000));
    assert_eq!(balance_of(&ledger, &account("admin")), U256::from_u64(1_000_000));
    assert_eq!(ledger.admin.id(), &b"admin".to_vec());
    assert!(!ledger.paused);
    assert_eq!(ledger.max_leverage, 100);
    assert_eq!(ledger.order_counter, 0);
}

#[test]
fn transfer_moves_the_amount() {
    let mut ledger = fresh(1_000_000);
    let done = transfer(&mut ledger, &account("admin"), &account("b"), U256::from_u64(400_000));
    assert_eq!(done, Ok(()));
    assert_eq!(balance_of(&ledger, &account("admin")), U256::from_u64(600_000));
    assert_eq!(balance_of(&ledger, &account("b")), U256::from_u64(400_000));
}

#[test]
fn transfer_of_more_than_the_balance_is_refused() {
    let mut ledger = fresh(1_000);
    let done = transfer(&mut ledger, &account("admin"), &account("b"), U256::from_u64(1_001));
    assert_eq!(done, Err(Error::InsufficientBalance));
    assert_eq!(balance_of(&ledger, &account("admin")), U256::from_u64(1_000));
    assert_eq!(balance_of(&ledger, &account("b")), U256::zero());
    let done = transfer(&mut ledger, &account("b"), &account("admin"), U256::from_u64(1));
    assert_eq!(done, Err(Error::InsufficientBalance));
    assert_eq!(balance_of(&ledger, &account("admin")), U256::from_u64(1_000));
}

#[test]
fn transfer_of_the_whole_balance_and_of_nothing() {
    let mut ledger = fresh(1_000);
    assert_eq!(transfer(&mut ledger, &account("admin"), &account("b"), U256::zero()), Ok(()));
    assert_eq!(balance_of(&ledger, &account("b")), U256::zero());
    assert_eq!(
        transfer(&mut ledger, &account("admin"), &account("b"), U256::from_u64(1_000)),
        Ok(())
    );
    assert_eq!(balance_of(&ledger, &account("admin")), U256::zero());
    assert_eq!(balance_of(&ledger, &account("b")), U256::from_u64(1_000));
}

#[test]
fn transfer_to_oneself_changes_no_balance() {
    let mut ledger = fresh(1_000);
    let done = transfer(&mut ledger, &account("admin"), &account("admin"), U256::from_u64(700));
    assert_eq!(done, Ok(()));
    assert_eq!(balance_of(&ledger, &account("admin")), U256::from_u64(1_000));
    let done = transfer(&mut ledger, &account("admin"), &account("admin"), U256::from_u64(1_001));
    assert_eq!(done, Err(Error::InsufficientBalance));
}

#[test]
fn balances_always_sum_to_the_supply() {
    let mut ledger = fresh(1_000_000);
    let names = ["admin", "b", "c", "d"];
    let moves = [(0, 1, 400_000u64), (1, 2, 150_000), (2, 3, 150_001), (1, 1, 5), (3, 0, 0), (1, 0, 250_000)];
    for (from, to, amount) in moves {
        let _ = transfer(&mut ledger, &account(names[from]), &account(names[to]), U256::from_u64(amount));
        let mut sum = 0u64;
        for who in names {
            sum += balance_of(&ledger, &account(who)).limbs[0];
        }
        assert_eq!(sum, 1_000_000);
        assert_eq!(total_supply(&ledger), U256::from_u64(1_000_000));
    }
    assert_eq!(balance_of(&ledger, &account("admin")), U256::from_u64(850_000));
    assert_eq!(balance_of(&ledger, &account("b")), U256::zero());
    assert_eq!(balance_of(&ledger, &account("c")), U256::from_u64(150_000));
}

#[test]
fn transfer_carries_between_limbs() {
    let supply = U256::from_limbs([0, 1, 0, 0]);
    let mut ledger = call(&account("admin"), String::new(), String::new(), supply);
    assert_eq!(transfer(&mut ledger, &account("admin"), &account("b"), U256::from_u64(1)), Ok(()));
    assert_eq!(balance_of(&ledger, &account("admin")), U256::from_limbs([u64::MAX, 0, 0, 0]));
    assert_eq!(transfer(&mut ledger, &account("admin"), &account("b"), U256::from_u64(u64::MAX)), Ok(()));
    assert_eq!(balance_of(&ledger, &account("b")), U256::from_limbs([0, 1, 0, 0]));
    assert_eq!(balance_of(&ledger, &account("admin")), U256::zero());
}

#[test]
fn the_largest_supply_can_be_moved() {
    let supply = U256::from_limbs([u64::MAX; 4]);
    let mut ledger = call(&account("admin"), String::new(), String::new(), supply);
    assert_eq!(transfer(&mut ledger, &account("admin"), &account("b"), supply), Ok(()));
    assert_eq!(balance_of(&ledger, &account("b")), supply);
    assert_eq!(transfer(&mut ledger, &account("admin"), &account("b"), U256::from_u64(1)), Err(Error::InsufficientBalance));
}

#[test]
fn reads_of_unseen_accounts_are_zero_and_change_nothing() {
    let ledger = fresh(10);
    assert_eq!(balance_of(&ledger, &account("nobody")), U256::zero());
    assert_eq!(balance_of(&ledger, &account("nobody")), U256::zero());
    assert_eq!(allowance(&ledger, &account("admin"), &account("nobody")), U256::zero());
    assert_eq!(balance_of(&ledger, &account("admin")), U256::from_u64(10));
    assert_eq!(balance_of(&ledger, &account("admin")), U256::from_u64(10));
}

#[test]
fn approve_overwrites_the_allowance() {
    let mut ledger = fresh(10);
    approve(&mut ledger, &account("admin"), &account("s"), U256::from_u64(500));
    assert_eq!(allowance(&ledger, &account("admin"), &account("s")), U256::from_u64(500));
    approve(&mut ledger, &account("admin"), &account("s"), U256::from_u64(20));
    assert_eq!(allowance(&ledger, &account("admin"), &account("s")), U256::from_u64(20));
    assert_eq!(allowance(&ledger, &account("s"), &account("admin")), U256::zero());
    assert_eq!(allowance(&ledger, &account("admin"), &account("t")), U256::zero());
}

#[test]
fn allowance_is_keyed_by_the_pair_not_by_joined_names() {
    let mut ledger = fresh(10);
    approve(&mut ledger, &account("a_b"), &account("c"), U256::from_u64(7));
    assert_eq!(allowance(&ledger, &account("a_b"), &account("c")), U256::from_u64(7));
    assert_eq!(allowance(&ledger, &account("a"), &account("b_c")), U256::zero());
}

#[test]
fn transfer_leaves_allowances_alone() {
    let mut ledger = fresh(100);
    approve(&mut ledger, &account("admin"), &account("s"), U256::from_u64(50));
    assert_eq!(transfer(&mut ledger, &account("admin"), &account("s"), U256::from_u64(30)), Ok(()));
    assert_eq!(allowance(&ledger, &account("admin"), &account("s")), U256::from_u64(50));
}

#[test]
fn error_codes() {
    assert_eq!(Error::InsufficientBalance.code(), 1);
    assert_eq!(Error::InsufficientAllowance.code(), 2);
    assert_eq!(Error::Unauthorized.code(), 3);
    assert_eq!(Error::ContractPaused.code(), 4);
    assert_eq!(Error::InvalidAmount.code(), 5);
}
