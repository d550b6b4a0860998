use keypom::{DepositTerms, Platform};

fn simple_terms() -> DepositTerms {
    DepositTerms {
        drop_fee: 50,
        key_fee: 10,
        storage_bytes: 20,
        storage_cost_per_byte: 1,
        key_count: 3,
        allowance_per_key: 5,
        key_registration_cost: 0,
        deposit_per_use: 100,
        uses_per_key: 1,
        none_count: 0,
        longest_token_bytes: 0,
        fc_deposits_per_key: 0,
        registration_cost_per_use: 0,
    }
}

#[test]
fn simple_drop_of_three_keys_requires_415() {
    assert_eq!(simple_terms().required_deposit(), Some(50 + 20 + 3 * (10 + 5 + 100)));
    assert_eq!(simple_terms().required_deposit(), Some(415));
}

#[test]
fn no_keys_cost_the_drop_fee_and_the_storage() {
    let terms = DepositTerms { key_count: 0, ..simple_terms() };
    assert_eq!(terms.required_deposit(), Some(70));
}

#[test]
fn storage_is_priced_per_byte() {
    let terms = DepositTerms { storage_bytes: 7, storage_cost_per_byte: 11, ..simple_terms() };
    assert_eq!(terms.required_deposit(), Some(50 + 77 + 345));
}

#[test]
fn key_registration_cost_is_charged_for_each_key() {
    let terms = DepositTerms { key_registration_cost: 4, ..simple_terms() };
    assert_eq!(terms.required_deposit(), Some(415 + 12));
}

#[test]
fn function_call_deposits_are_multiplied_by_the_key_count_once() {
    // three uses share one list of invocations that attaches 30: 90 for each key
    let terms = DepositTerms {
        drop_fee: 0,
        key_fee: 0,
        storage_bytes: 0,
        storage_cost_per_byte: 0,
        key_count: 2,
        allowance_per_key: 0,
        key_registration_cost: 0,
        deposit_per_use: 0,
        uses_per_key: 3,
        none_count: 0,
        longest_token_bytes: 0,
        fc_deposits_per_key: 90,
        registration_cost_per_use: 0,
    };
    assert_eq!(terms.required_deposit(), Some(3 * 30 * 2));
}

#[test]
fn uses_without_invocation_carry_no_deposit() {
    let terms = DepositTerms {
        deposit_per_use: 100,
        uses_per_key: 4,
        none_count: 3,
        key_count: 2,
        ..simple_terms()
    };
    // each key: fee 10, allowance 5, one charged use of 100
    assert_eq!(terms.required_deposit(), Some(50 + 20 + 2 * (10 + 5 + 100)));
}

#[test]
fn longest_token_storage_is_charged_for_each_charged_use() {
    let terms = DepositTerms {
        deposit_per_use: 0,
        uses_per_key: 2,
        longest_token_bytes: 8,
        storage_cost_per_byte: 3,
        storage_bytes: 10,
        key_count: 5,
        ..simple_terms()
    };
    // storage 30; each key: 10 + 5 + 8 * 3 * 2
    assert_eq!(terms.required_deposit(), Some(50 + 30 + 5 * (10 + 5 + 48)));
}

#[test]
fn registration_cost_is_charged_for_each_use() {
    let terms = DepositTerms {
        drop_fee: 0,
        deposit_per_use: 0,
        uses_per_key: 3,
        registration_cost_per_use: 7,
        key_count: 2,
        ..simple_terms()
    };
    assert_eq!(terms.required_deposit(), Some(20 + 2 * (10 + 5 + 21)));
}

#[test]
fn a_deposit_beyond_every_amount_is_none() {
    let terms = DepositTerms { deposit_per_use: u128::MAX, key_count: 2, ..simple_terms() };
    assert_eq!(terms.required_deposit(), None);
    let terms = DepositTerms { drop_fee: u128::MAX, ..simple_terms() };
    assert_eq!(terms.required_deposit(), None);
}

#[test]
fn an_overflowing_key_cost_does_not_count_without_keys() {
    let terms = DepositTerms { deposit_per_use: u128::MAX, uses_per_key: 2, key_count: 0, ..simple_terms() };
    assert_eq!(terms.required_deposit(), Some(70));
}

#[test]
fn the_largest_deposit_that_fits_is_returned() {
    let terms = DepositTerms {
        drop_fee: u128::MAX - 1,
        key_fee: 1,
        storage_bytes: 0,
        storage_cost_per_byte: 0,
        key_count: 1,
        allowance_per_key: 0,
        key_registration_cost: 0,
        deposit_per_use: 0,
        uses_per_key: 1,
        none_count: 0,
        longest_token_bytes: 0,
        fc_deposits_per_key: 0,
        registration_cost_per_use: 0,
    };
    assert_eq!(terms.required_deposit(), Some(u128::MAX));
}

#[test]
fn allowance_is_linear_in_the_compute_budget_and_in_the_uses() {
    let platform = Platform {
        access_key_storage: 0,
        wallet_gas: 100,
        fc_gas_offset: 20,
        allowance_floor: 7,
        allowance_per_gas: 3,
    };
    assert_eq!(platform.allowance_per_key(100, 1), Some(307));
    assert_eq!(platform.allowance_per_key(100, 4), Some(1228));
    assert_eq!(platform.allowance_per_key(0, 2), Some(14));
    assert_eq!(platform.allowance_per_key(50, 0), Some(0));
}

#[test]
fn an_allowance_beyond_every_amount_is_none() {
    let platform = Platform {
        access_key_storage: 0,
        wallet_gas: 100,
        fc_gas_offset: 20,
        allowance_floor: u128::MAX,
        allowance_per_gas: 1,
    };
    assert_eq!(platform.allowance_per_key(0, 1), Some(u128::MAX));
    assert_eq!(platform.allowance_per_key(1, 1), None);
    assert_eq!(platform.allowance_per_key(0, 2), None);
}
