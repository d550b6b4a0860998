use keypom::{
    AdmissionError, DropConfig, FCConfig, FCData, FeeSchedule, KeyGrant, KeyInfo, Keypom,
    MethodData, MethodScope, NFTDataConfig, NextStep, Platform, PublicKey, StorageUsage,
};

fn platform() -> Platform {
    Platform {
        access_key_storage: 1,
        wallet_gas: 100,
        fc_gas_offset: 20,
        allowance_floor: 5,
        allowance_per_gas: 0,
    }
}

fn engine_with(funder: &str, balance: u128) -> Keypom {
    let mut engine = Keypom::new(platform(), FeeSchedule { drop_fee: 50, key_fee: 10 }).unwrap();
    engine.add_to_balance(&String::from(funder), balance).unwrap();
    engine
}

fn keys(ids: &[u8]) -> Vec<PublicKey> {
    ids.iter().map(|id| vec![9, *id]).collect()
}

fn usage(bytes_added: u64) -> StorageUsage {
    StorageUsage { bytes_added, longest_token_bytes: 0 }
}

fn config(uses_per_key: u64) -> Option<DropConfig> {
    Some(DropConfig {
        uses_per_key: Some(uses_per_key),
        start_timestamp: None,
        throttle_timestamp: None,
        on_claim_refund_deposit: None,
        claim_permission: None,
        drop_root: None,
    })
}

fn call(attached_deposit: u128) -> MethodData {
    MethodData {
        receiver_id: String::from("app.example"),
        method_name: String::from("run"),
        args: String::from("{}"),
        attached_deposit,
    }
}

#[test]
fn more_keys_of_a_simple_drop_raise_the_funded_uses() {
    let alice = String::from("alice");
    let mut engine = engine_with("alice", 10_000);
    engine.create_drop_at_price(&alice, keys(&[1]), 100, config(2), None, None, None, None, usage(0), 2).unwrap();
    let balance = engine.balance(&alice).unwrap();
    let fees = engine.fees_collected;
    assert_eq!(engine.get_drop(0).unwrap().registered_uses, 2);
    let admission = engine.add_keys_at_price(&alice, keys(&[2, 3, 4]), 0, usage(10), 2).unwrap();
    assert_eq!(admission.drop_id, 0);
    assert_eq!(
        admission.next,
        NextStep::IssueTokens(KeyGrant {
            public_keys: keys(&[2, 3, 4]),
            allowance: 10,
            scope: MethodScope::Both,
        })
    );
    let drop = engine.get_drop(0).unwrap();
    assert_eq!(drop.registered_uses, 2 + 2 * 3);
    assert_eq!(drop.next_key_id, 4);
    // no drop fee; storage 20; each key: fee 10, allowance 10, registration 1, deposit 200
    assert_eq!(engine.balance(&alice), Some(balance - (20 + 3 * (10 + 10 + 1 + 200))));
    assert_eq!(engine.fees_collected, fees + 30);
    assert_eq!(
        engine.key_info(&vec![9, 3]),
        Some(KeyInfo { remaining_uses: 2, last_used: 0, allowance: 10, key_id: 2 })
    );
    assert_eq!(
        engine.key_info(&vec![9, 1]),
        Some(KeyInfo { remaining_uses: 2, last_used: 0, allowance: 10, key_id: 0 })
    );
    for key in keys(&[1, 2, 3, 4]) {
        assert_eq!(engine.drop_id_of(&key), Some(0));
        assert!(engine.is_redeemable(&key));
    }
}

#[test]
fn more_keys_of_a_function_call_drop_raise_the_funded_uses() {
    let alice = String::from("alice");
    let mut engine = engine_with("alice", 10_000);
    let fc = FCData { methods: vec![Some(vec![call(30)])], config: None };
    engine.create_drop_at_price(&alice, vec![], 0, config(3), None, None, None, Some(fc), usage(0), 2).unwrap();
    let balance = engine.balance(&alice).unwrap();
    engine.add_keys_at_price(&alice, keys(&[1, 2]), 0, usage(0), 2).unwrap();
    assert_eq!(engine.get_drop(0).unwrap().registered_uses, 6);
    // each key: fee 10, allowance 15, registration 1, invocations 3 * 30
    assert_eq!(engine.balance(&alice), Some(balance - 2 * (10 + 15 + 1 + 90)));
}

#[test]
fn more_keys_of_a_token_drop_leave_the_funded_uses() {
    let alice = String::from("alice");
    let mut engine = engine_with("alice", 10_000);
    let nft = NFTDataConfig {
        sender_id: String::from("sender"),
        contract_id: String::from("nft.example"),
        longest_token_id: String::from("token-0001"),
    };
    engine
        .create_drop_at_price(
            &alice,
            keys(&[1]),
            0,
            config(2),
            None,
            None,
            Some(nft),
            None,
            StorageUsage { bytes_added: 0, longest_token_bytes: 8 },
            2,
        )
        .unwrap();
    let balance = engine.balance(&alice).unwrap();
    assert_eq!(engine.get_drop(0).unwrap().registered_uses, 0);
    engine.add_keys_at_price(&alice, keys(&[2, 3]), 0, usage(0), 2).unwrap();
    assert_eq!(engine.get_drop(0).unwrap().registered_uses, 0);
    // each key: fee 10, allowance 10, registration 1, token storage 8 * 2 * 2
    assert_eq!(engine.balance(&alice), Some(balance - 2 * (10 + 10 + 1 + 32)));
}

#[test]
fn a_drop_with_its_own_compute_budget_keeps_claim_only_tokens() {
    let alice = String::from("alice");
    let mut engine = engine_with("alice", 10_000);
    let fc = FCData {
        methods: vec![Some(vec![call(0)])],
        config: Some(FCConfig { attached_gas: Some(10) }),
    };
    engine.create_drop_at_price(&alice, vec![], 0, None, None, None, None, Some(fc), usage(0), 2).unwrap();
    let admission = engine.add_keys_at_price(&alice, keys(&[1]), 0, usage(0), 2).unwrap();
    match admission.next {
        NextStep::IssueTokens(grant) => assert_eq!(grant.scope, MethodScope::ClaimOnly),
        other => panic!("unexpected step {:?}", other),
    }
}

#[test]
fn a_drop_that_does_not_exist_cannot_be_extended() {
    let alice = String::from("alice");
    let mut engine = engine_with("alice", 10_000);
    let before = engine.clone();
    assert_eq!(engine.add_keys_at_price(&alice, keys(&[1]), 0, usage(0), 2), Err(AdmissionError::DropNotFound));
    assert_eq!(
        engine.add_keys_at_price(&alice, keys(&[1]), u128::MAX, usage(0), 2),
        Err(AdmissionError::DropNotFound)
    );
    assert_eq!(engine, before);
}

#[test]
fn only_the_funder_can_extend_a_drop() {
    let alice = String::from("alice");
    let bob = String::from("bob");
    let mut engine = engine_with("alice", 10_000);
    engine.add_to_balance(&bob, 10_000).unwrap();
    engine.create_drop_at_price(&alice, keys(&[1]), 1, None, None, None, None, None, usage(0), 2).unwrap();
    let before = engine.clone();
    assert_eq!(engine.add_keys_at_price(&bob, keys(&[2]), 0, usage(0), 2), Err(AdmissionError::NotOwner));
    assert_eq!(engine, before);
}

#[test]
fn a_key_that_has_an_owner_rejects_the_whole_extension() {
    let alice = String::from("alice");
    let mut engine = engine_with("alice", 10_000);
    engine.create_drop_at_price(&alice, keys(&[1]), 1, None, None, None, None, None, usage(0), 2).unwrap();
    engine.create_drop_at_price(&alice, keys(&[2]), 1, None, None, None, None, None, usage(0), 2).unwrap();
    let before = engine.clone();
    assert_eq!(
        engine.add_keys_at_price(&alice, keys(&[3, 1]), 1, usage(0), 2),
        Err(AdmissionError::DuplicateKey)
    );
    assert_eq!(
        engine.add_keys_at_price(&alice, keys(&[3, 2]), 1, usage(0), 2),
        Err(AdmissionError::DuplicateKey)
    );
    assert_eq!(
        engine.add_keys_at_price(&alice, keys(&[3, 3]), 1, usage(0), 2),
        Err(AdmissionError::DuplicateKey)
    );
    assert_eq!(engine, before);
    assert_eq!(engine.drop_id_of(&vec![9, 3]), None);
}

#[test]
fn an_extension_that_the_balance_does_not_cover_is_rejected() {
    let alice = String::from("alice");
    let mut engine = engine_with("alice", 50 + 116 + 115);
    engine.create_drop_at_price(&alice, keys(&[1]), 100, None, None, None, None, None, usage(0), 2).unwrap();
    assert_eq!(engine.balance(&alice), Some(115));
    let before = engine.clone();
    assert_eq!(
        engine.add_keys_at_price(&alice, keys(&[2]), 0, usage(0), 2),
        Err(AdmissionError::InsufficientBalance)
    );
    assert_eq!(engine, before);
    engine.add_to_balance(&alice, 1).unwrap();
    assert!(engine.add_keys_at_price(&alice, keys(&[2]), 0, usage(0), 2).is_ok());
    assert_eq!(engine.balance(&alice), Some(0));
}

#[test]
fn funded_uses_that_cannot_be_counted_exceed_capacity() {
    let alice = String::from("alice");
    let mut engine = Keypom::new(
        Platform { allowance_floor: 0, access_key_storage: 0, ..platform() },
        FeeSchedule { drop_fee: 0, key_fee: 0 },
    )
    .unwrap();
    engine.add_to_balance(&alice, u128::MAX).unwrap();
    engine
        .create_drop_at_price(&alice, keys(&[1]), 1, config(u64::MAX - 1), None, None, None, None, usage(0), 2)
        .unwrap();
    let before = engine.clone();
    assert_eq!(
        engine.add_keys_at_price(&alice, keys(&[2]), 0, usage(0), 2),
        Err(AdmissionError::CapacityExceeded)
    );
    assert_eq!(engine, before);
}

#[test]
fn storage_of_more_keys_is_priced_as_the_platform_prices_it() {
    let alice = String::from("alice");
    let mut engine = Keypom::new(
        Platform { allowance_floor: 0, access_key_storage: 0, ..platform() },
        FeeSchedule { drop_fee: 0, key_fee: 0 },
    )
    .unwrap();
    engine.add_to_balance(&alice, 50_000_000_000_000_000_000).unwrap();
    engine.create_drop(&alice, vec![], 1, None, None, None, None, None, usage(0)).unwrap();
    engine.add_keys(&alice, keys(&[1]), 0, usage(3)).unwrap();
    assert_eq!(engine.balance(&alice), Some(20_000_000_000_000_000_000 - 1));
    assert_eq!(
        engine.add_keys(&alice, keys(&[2]), 0, usage(2)),
        Err(AdmissionError::InsufficientBalance)
    );
}
