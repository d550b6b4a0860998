use keypom::{
    AdmissionError, DropConfig, DropStatus, DropType, FTDataConfig, FeeSchedule, KeyGrant,
    Keypom, MethodScope, NextStep, Platform, PublicKey, StorageBalanceBounds, StorageUsage,
};

fn engine_with(funder: &str, balance: u128) -> Keypom {
    let platform = Platform {
        access_key_storage: 0,
        wallet_gas: 100,
        fc_gas_offset: 20,
        allowance_floor: 5,
        allowance_per_gas: 0,
    };
    let mut engine = Keypom::new(platform, FeeSchedule { drop_fee: 50, key_fee: 10 }).unwrap();
    engine.add_to_balance(&String::from(funder), balance).unwrap();
    engine
}

fn keys(ids: &[u8]) -> Vec<PublicKey> {
    ids.iter().map(|id| vec![4, *id]).collect()
}

fn tokens() -> Option<FTDataConfig> {
    Some(FTDataConfig {
        sender_id: String::from("sender"),
        contract_id: String::from("ft.example"),
        balance_per_use: 25,
    })
}

fn two_uses() -> Option<DropConfig> {
    Some(DropConfig {
        uses_per_key: Some(2),
        start_timestamp: None,
        throttle_timestamp: None,
        on_claim_refund_deposit: None,
        claim_permission: None,
        drop_root: None,
    })
}

fn usage() -> StorageUsage {
    StorageUsage { bytes_added: 20, longest_token_bytes: 0 }
}

fn bounds(min: u128) -> Option<StorageBalanceBounds> {
    Some(StorageBalanceBounds { min, max: None })
}

// drop fee 50, storage 20, each of 3 keys: fee 10 and allowance 2 * 5
const CHARGE: u128 = 50 + 20 + 3 * (10 + 10);

fn pending_engine(balance: u128) -> Keypom {
    let alice = String::from("alice");
    let mut engine = engine_with("alice", balance);
    let admission = engine
        .create_drop_at_price(&alice, keys(&[1, 2, 3]), 0, two_uses(), None, tokens(), None, None, usage(), 1)
        .unwrap();
    assert_eq!(admission.drop_id, 0);
    assert_eq!(admission.next, NextStep::AskRegistry { contract_id: String::from("ft.example") });
    engine
}

#[test]
fn creation_charges_the_funder_and_issues_no_token() {
    let alice = String::from("alice");
    let engine = pending_engine(10_000);
    assert_eq!(engine.balance(&alice), Some(10_000 - CHARGE));
    assert_eq!(engine.fees_collected, 80);
    assert_eq!(engine.funds_held, 10_000);
    let drop = engine.get_drop(0).unwrap();
    assert_eq!(drop.status, DropStatus::Pending { held: CHARGE - 80, fees: 80 });
    assert_eq!(drop.registered_uses, 0);
    match &drop.drop_type {
        DropType::FungibleToken(data) => {
            assert_eq!(data.contract_id, "ft.example");
            assert_eq!(data.sender_id, "sender");
            assert_eq!(data.balance_per_use, 25);
            assert_eq!(data.ft_storage, None);
        }
        other => panic!("unexpected payload {:?}", other),
    }
    for key in keys(&[1, 2, 3]) {
        assert_eq!(engine.drop_id_of(&key), Some(0));
        assert!(!engine.is_redeemable(&key));
    }
}

#[test]
fn an_answer_that_the_balance_covers_funds_the_drop() {
    let alice = String::from("alice");
    let mut engine = pending_engine(10_000);
    let grant = engine.resolve_storage_check(0, bounds(7)).unwrap();
    assert_eq!(
        grant,
        KeyGrant { public_keys: keys(&[1, 2, 3]), allowance: 10, scope: MethodScope::Both }
    );
    // 7 for each of 2 uses of each of 3 keys
    assert_eq!(engine.balance(&alice), Some(10_000 - CHARGE - 42));
    assert_eq!(engine.fees_collected, 80);
    assert_eq!(engine.funds_held, 10_000 - CHARGE - 42 + 80);
    let drop = engine.get_drop(0).unwrap();
    assert_eq!(drop.status, DropStatus::Funded);
    assert_eq!(drop.registered_uses, 0);
    match &drop.drop_type {
        DropType::FungibleToken(data) => assert_eq!(data.ft_storage, Some(7)),
        other => panic!("unexpected payload {:?}", other),
    }
    for key in keys(&[1, 2, 3]) {
        assert!(engine.is_redeemable(&key));
        assert_eq!(engine.key_info(&key).unwrap().allowance, 10);
    }
}

#[test]
fn an_answer_that_takes_the_last_of_the_balance_funds_the_drop() {
    let alice = String::from("alice");
    let mut engine = pending_engine(CHARGE + 42);
    assert!(engine.resolve_storage_check(0, bounds(7)).is_ok());
    assert_eq!(engine.balance(&alice), Some(0));
}

#[test]
fn a_failed_call_gives_back_what_was_charged() {
    let alice = String::from("alice");
    let mut engine = pending_engine(10_000);
    let result = engine.resolve_storage_check(0, None);
    assert_eq!(result, Err(AdmissionError::ExternalCallFailure));
    assert_eq!(engine.balance(&alice), Some(10_000));
    assert_eq!(engine.fees_collected, 0);
    assert_eq!(engine.funds_held, 10_000);
    assert_eq!(engine.get_drop(0).unwrap().status, DropStatus::Failed);
    for key in keys(&[1, 2, 3]) {
        assert!(!engine.is_redeemable(&key));
    }
}

#[test]
fn an_answer_that_the_balance_does_not_cover_gives_back_what_was_charged() {
    let alice = String::from("alice");
    let mut engine = pending_engine(CHARGE + 41);
    let result = engine.resolve_storage_check(0, bounds(7));
    assert_eq!(result, Err(AdmissionError::UnderfundedAfterDiscovery));
    assert_eq!(engine.balance(&alice), Some(CHARGE + 41));
    assert_eq!(engine.fees_collected, 0);
    assert_eq!(engine.get_drop(0).unwrap().status, DropStatus::Failed);
    for key in keys(&[1, 2, 3]) {
        assert!(!engine.is_redeemable(&key));
    }
}

#[test]
fn a_cost_beyond_every_amount_gives_back_what_was_charged() {
    let alice = String::from("alice");
    let mut engine = pending_engine(10_000);
    let result = engine.resolve_storage_check(0, bounds(u128::MAX));
    assert_eq!(result, Err(AdmissionError::UnderfundedAfterDiscovery));
    assert_eq!(engine.balance(&alice), Some(10_000));
}

#[test]
fn a_drop_is_settled_once() {
    let mut engine = pending_engine(10_000);
    engine.resolve_storage_check(0, bounds(7)).unwrap();
    let before = engine.clone();
    assert_eq!(engine.resolve_storage_check(0, bounds(7)), Err(AdmissionError::NotPending));
    assert_eq!(engine.resolve_storage_check(0, None), Err(AdmissionError::NotPending));
    assert_eq!(engine, before);

    let mut engine = pending_engine(10_000);
    assert!(engine.resolve_storage_check(0, None).is_err());
    let before = engine.clone();
    assert_eq!(engine.resolve_storage_check(0, bounds(7)), Err(AdmissionError::NotPending));
    assert_eq!(engine.resolve_storage_check(0, None), Err(AdmissionError::NotPending));
    assert_eq!(engine, before);
}

#[test]
fn only_pending_drops_are_settled() {
    let alice = String::from("alice");
    let mut engine = engine_with("alice", 10_000);
    engine.create_drop_at_price(&alice, keys(&[1]), 1, None, None, None, None, None, usage(), 1).unwrap();
    let before = engine.clone();
    assert_eq!(engine.resolve_storage_check(0, bounds(1)), Err(AdmissionError::NotPending));
    assert_eq!(engine.resolve_storage_check(1, bounds(1)), Err(AdmissionError::DropNotFound));
    assert_eq!(engine.resolve_storage_check(u128::MAX, None), Err(AdmissionError::DropNotFound));
    assert_eq!(engine, before);
}

#[test]
fn a_pending_or_failed_drop_takes_no_more_keys() {
    let alice = String::from("alice");
    let mut engine = pending_engine(10_000);
    let before = engine.clone();
    assert_eq!(engine.add_keys_at_price(&alice, keys(&[4]), 0, usage(), 1), Err(AdmissionError::NotFunded));
    assert_eq!(engine, before);
    assert!(engine.resolve_storage_check(0, None).is_err());
    assert_eq!(engine.add_keys_at_price(&alice, keys(&[4]), 0, usage(), 1), Err(AdmissionError::NotFunded));
}

#[test]
fn the_keys_of_a_failed_drop_stay_taken() {
    let alice = String::from("alice");
    let mut engine = pending_engine(10_000);
    assert!(engine.resolve_storage_check(0, None).is_err());
    let result = engine.create_drop_at_price(&alice, keys(&[1]), 1, None, None, None, None, None, usage(), 1);
    assert_eq!(result, Err(AdmissionError::DuplicateKey));
}

#[test]
fn more_keys_of_a_funded_token_drop_pay_the_registration_cost() {
    let alice = String::from("alice");
    let mut engine = pending_engine(10_000);
    engine.resolve_storage_check(0, bounds(7)).unwrap();
    let balance = engine.balance(&alice).unwrap();
    let admission = engine
        .add_keys_at_price(&alice, keys(&[4, 5]), 0, StorageUsage { bytes_added: 0, longest_token_bytes: 0 }, 1)
        .unwrap();
    assert_eq!(
        admission.next,
        NextStep::IssueTokens(KeyGrant {
            public_keys: keys(&[4, 5]),
            allowance: 10,
            scope: MethodScope::Both,
        })
    );
    // each key: fee 10, allowance 10, registration 7 * 2
    assert_eq!(engine.balance(&alice), Some(balance - 2 * (10 + 10 + 14)));
    assert_eq!(engine.get_drop(0).unwrap().registered_uses, 0);
    assert_eq!(engine.get_drop(0).unwrap().next_key_id, 5);
}

#[test]
fn paying_in_while_a_drop_is_pending_does_not_disturb_the_refund() {
    let alice = String::from("alice");
    let mut engine = pending_engine(10_000);
    engine.add_to_balance(&alice, 500).unwrap();
    assert!(engine.resolve_storage_check(0, None).is_err());
    assert_eq!(engine.balance(&alice), Some(10_500));
    assert_eq!(engine.funds_held, 10_500);
}
