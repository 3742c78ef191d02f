use casperflow::amount::{U256, U512};

#[test]
fn small_amounts_sit_in_the_lowest_limb() {
    assert_eq!(U256::zero().limbs, [0; 4]);
    assert_eq!(U256::from_u64(9).limbs, [9, 0, 0, 0]);
    assert_eq!(U512::zero().limbs, [0; 8]);
    assert_eq!(U512::from_u64(9).limbs, [9, 0, 0, 0, 0, 0, 0, 0]);
    assert!(U512::zero().is_zero());
    assert!(!U512::from_u64(1).is_zero());
    assert!(!U512::from_limbs([0, 0, 0, 0, 0, 0, 0, 1]).is_zero());
}

#[test]
fn limbs_are_those_of_the_host_integers() {
    assert_eq!(casper_types::U512::from(77u64).0, U512::from_u64(77).limbs);
    assert_eq!(casper_types::U256::from(77u64).0, U256::from_u64(77).limbs);
    let big = casper_types::U512::from(u64::MAX) * casper_types::U512::from(u64::MAX);
    assert_eq!(U512::from_u64(u64::MAX).times(&U512::from_u64(u64::MAX)).limbs, big.0);
    assert_eq!(casper_types::U512::MAX.0, [u64::MAX; 8]);
}

#[test]
fn sums_and_differences_of_256_bits() {
    let a = U256::from_limbs([u64::MAX, u64::MAX, 0, 0]);
    let one = U256::from_u64(1);
    assert_eq!(a.plus(&one), U256::from_limbs([0, 0, 1, 0]));
    assert_eq!(U256::from_limbs([0, 0, 1, 0]).minus(&one), a);
    assert!(one.less_than(&a));
    assert!(!a.less_than(&one));
    assert!(!a.less_than(&a));
    assert!(a.sum_fits(&one));
    assert!(U256::from_limbs([u64::MAX - 1, u64::MAX, u64::MAX, u64::MAX]).sum_fits(&one));
    assert!(!U256::from_limbs([u64::MAX; 4]).sum_fits(&one));
}

#[test]
fn a_value_that_is_there_is_taken_out() {
    assert_eq!(casperflow::amount::panic(Some(3u8)), 3);
    assert_eq!(casperflow::amount::panic(Some(U256::from_u64(8))), U256::from_u64(8));
}

#[test]
fn sums_differences_products_and_quotients_of_512_bits() {
    let a = U512::from_limbs([u64::MAX, u64::MAX, u64::MAX, u64::MAX, 0, 0, 0, 0]);
    let one = U512::from_u64(1);
    assert_eq!(a.plus(&one), U512::from_limbs([0, 0, 0, 0, 1, 0, 0, 0]));
    assert_eq!(U512::from_limbs([0, 0, 0, 0, 1, 0, 0, 0]).minus(&one), a);
    assert!(one.less_than(&a));
    assert!(!a.less_than(&a));
    assert_eq!(U512::from_u64(6).times(&U512::from_u64(7)), U512::from_u64(42));
    assert_eq!(U512::from_u64(1 << 63).times(&U512::from_u64(4)), U512::from_limbs([0, 2, 0, 0, 0, 0, 0, 0]));
    assert_eq!(U512::from_u64(43).divided_by(&U512::from_u64(7)), U512::from_u64(6));
    assert_eq!(U512::from_limbs([0, 2, 0, 0, 0, 0, 0, 0]).divided_by(&U512::from_u64(4)), U512::from_u64(1 << 63));
    assert_eq!(U512::from_u64(3).divided_by(&U512::from_u64(7)), U512::zero());
}

#[test]
fn the_width_is_told() {
    let max = U512::from_limbs([u64::MAX; 8]);
    assert!(max.sum_fits(&U512::zero()));
    assert!(!max.sum_fits(&U512::from_u64(1)));
    assert!(max.product_fits(&U512::from_u64(1)));
    assert!(!max.product_fits(&U512::from_u64(2)));
    assert!(U512::from_limbs([0, 0, 0, 0, 1, 0, 0, 0]).product_fits(&U512::from_limbs([0, 0, 0, u64::MAX, 0, 0, 0, 0])));
    assert!(!U512::from_limbs([0, 0, 0, 0, 1, 0, 0, 0]).product_fits(&U512::from_limbs([0, 0, 0, 0, 1, 0, 0, 0])));
}
