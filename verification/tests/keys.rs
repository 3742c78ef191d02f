use casperflow::keys::decimal_digits;
use casperflow::table::{Account, Pair, Slot};

fn account(id: &str) -> Account {
    Account::new(id.as_bytes().to_vec())
}

#[test]
fn decimal_digits_of_numbers() {
    assert_eq!(decimal_digits(0), b"0".to_vec());
    assert_eq!(decimal_digits(7), b"7".to_vec());
    assert_eq!(decimal_digits(10), b"10".to_vec());
    assert_eq!(decimal_digits(1_700_000_000_123), b"1700000000123".to_vec());
    assert_eq!(decimal_digits(u64::MAX), b"18446744073709551615".to_vec());
}

#[test]
fn an_account_is_addressed_by_its_canonical_form() {
    assert_eq!(account("Key::Account(01)").storage_key(), b"Key::Account(01)".to_vec());
    assert_eq!(account("").storage_key(), Vec::<u8>::new());
}

#[test]
fn composite_addresses_join_their_parts_with_an_underscore() {
    let pair = Pair { owner: account("alice"), spender: account("bob") };
    assert_eq!(pair.storage_key(), b"alice_bob".to_vec());
    let slot = Slot { owner: account("alice"), id: 42 };
    assert_eq!(slot.storage_key(), b"alice_42".to_vec());
    let first = Slot { owner: account("alice"), id: 0 };
    assert_eq!(first.storage_key(), b"alice_0".to_vec());
    assert_eq!(
        String::from_utf8(slot.storage_key()).ok(),
        Some(format!("{}_{}", "alice", 42u64))
    );
}
