use keypom::{
    DropStatus, DropType, FTDataConfig, FeeSchedule, KeyInfo, Keypom, NFTDataConfig, Platform,
    PublicKey, StorageUsage,
};

fn platform() -> Platform {
    Platform {
        access_key_storage: 0,
        wallet_gas: 100,
        fc_gas_offset: 20,
        allowance_floor: 5,
        allowance_per_gas: 0,
    }
}

fn keys(ids: &[u8]) -> Vec<PublicKey> {
    ids.iter().map(|id| vec![7, *id]).collect()
}

fn usage() -> StorageUsage {
    StorageUsage { bytes_added: 10, longest_token_bytes: 4 }
}

fn tokens() -> Option<NFTDataConfig> {
    Some(NFTDataConfig {
        sender_id: String::from("sender"),
        contract_id: String::from("nft.example"),
        longest_token_id: String::from("the-longest-token"),
    })
}

/// A state with a funded simple drop, a token drop and a pending drop.
fn busy_engine() -> Keypom {
    let alice = String::from("alice");
    let bob = String::from("bob");
    let mut engine = Keypom::new(platform(), FeeSchedule { drop_fee: 50, key_fee: 10 }).unwrap();
    engine.add_to_balance(&alice, 10_000).unwrap();
    engine.add_to_balance(&bob, 10_000).unwrap();
    engine.set_fees(&bob, FeeSchedule { drop_fee: 1, key_fee: 1 });
    engine
        .create_drop_at_price(&alice, keys(&[1, 2]), 10, None, None, None, None, None, usage(), 1)
        .unwrap();
    engine
        .create_drop_at_price(&bob, keys(&[3]), 0, None, None, None, tokens(), None, usage(), 1)
        .unwrap();
    let ft = FTDataConfig {
        sender_id: String::from("sender"),
        contract_id: String::from("ft.example"),
        balance_per_use: 1,
    };
    engine
        .create_drop_at_price(&alice, keys(&[4, 5]), 0, None, None, Some(ft), None, None, usage(), 1)
        .unwrap();
    engine.add_keys_at_price(&alice, keys(&[6]), 0, usage(), 1).unwrap();
    engine
}

#[test]
fn states_that_the_engine_made_are_well_formed() {
    let mut engine = Keypom::new(platform(), FeeSchedule { drop_fee: 50, key_fee: 10 }).unwrap();
    assert!(engine.is_well_formed());
    engine.add_to_balance(&String::from("alice"), 5).unwrap();
    assert!(engine.is_well_formed());
    let mut engine = busy_engine();
    assert!(engine.is_well_formed());
    assert!(engine.resolve_storage_check(2, None).is_err());
    assert!(engine.is_well_formed());
    let mut engine = busy_engine();
    let bounds = keypom::StorageBalanceBounds { min: 3, max: None };
    assert!(engine.resolve_storage_check(2, Some(bounds)).is_ok());
    assert!(engine.is_well_formed());
    assert!(engine.store_probe(1));
    assert!(engine.is_well_formed());
}

#[test]
fn a_wrong_sum_of_funds_is_found() {
    let mut engine = busy_engine();
    engine.funds_held += 1;
    assert!(!engine.is_well_formed());
    let mut engine = busy_engine();
    engine.fees_collected -= 1;
    assert!(!engine.is_well_formed());
    let mut engine = busy_engine();
    engine.user_balances.balances[0] += 1;
    assert!(!engine.is_well_formed());
}

#[test]
fn fees_that_do_not_cover_what_pending_drops_owe_back_are_found() {
    let mut engine = busy_engine();
    let booked = engine.fees_collected;
    engine.fees_collected = 0;
    engine.funds_held -= booked;
    assert!(!engine.is_well_formed());
}

#[test]
fn a_wrong_drop_counter_is_found() {
    let mut engine = busy_engine();
    engine.next_drop_id = 7;
    assert!(!engine.is_well_formed());
}

#[test]
fn a_platform_without_room_for_the_engine_is_found() {
    let mut engine = busy_engine();
    engine.platform.fc_gas_offset = 101;
    assert!(!engine.is_well_formed());
}

#[test]
fn a_key_listed_twice_is_found() {
    let mut engine = busy_engine();
    engine.drop_id_for_pk.keys.push(vec![7, 1]);
    engine.drop_id_for_pk.drop_ids.push(0);
    assert!(!engine.is_well_formed());
    let mut engine = busy_engine();
    engine.drop_id_for_pk.keys.pop();
    assert!(!engine.is_well_formed());
    let mut engine = busy_engine();
    engine.user_balances.ids[1] = String::from("alice");
    assert!(!engine.is_well_formed());
    let mut engine = busy_engine();
    engine.fees_per_user.ids.push(String::from("bob"));
    engine.fees_per_user.schedules.push(FeeSchedule { drop_fee: 0, key_fee: 0 });
    assert!(!engine.is_well_formed());
}

#[test]
fn a_key_that_the_index_and_the_drops_disagree_on_is_found() {
    // indexed under another drop
    let mut engine = busy_engine();
    engine.drop_id_for_pk.drop_ids[0] = 1;
    assert!(!engine.is_well_formed());
    // indexed under no drop
    let mut engine = busy_engine();
    engine.drop_id_for_pk.drop_ids[0] = 9;
    assert!(!engine.is_well_formed());
    // indexed but in no table
    let mut engine = busy_engine();
    engine.drop_id_for_pk.keys.push(vec![7, 9]);
    engine.drop_id_for_pk.drop_ids.push(0);
    assert!(!engine.is_well_formed());
    // in a table but not indexed
    let mut engine = busy_engine();
    engine.drop_for_id[1].pks.keys.push(vec![7, 9]);
    engine.drop_for_id[1].pks.infos.push(KeyInfo {
        remaining_uses: 1,
        last_used: 0,
        allowance: 5,
        key_id: 1,
    });
    engine.drop_for_id[1].next_key_id = 2;
    assert!(!engine.is_well_formed());
}

#[test]
fn sequence_numbers_out_of_order_are_found() {
    let mut engine = busy_engine();
    engine.drop_for_id[0].pks.infos[1].key_id = 0;
    assert!(!engine.is_well_formed());
    let mut engine = busy_engine();
    engine.drop_for_id[0].next_key_id = 2;
    assert!(!engine.is_well_formed());
}

#[test]
fn a_status_that_does_not_fit_the_payload_is_found() {
    let mut engine = busy_engine();
    engine.drop_for_id[0].status = DropStatus::Pending { held: 0, fees: 0 };
    assert!(!engine.is_well_formed());
    let mut engine = busy_engine();
    engine.drop_for_id[2].status = DropStatus::Funded;
    assert!(!engine.is_well_formed());
    let mut engine = busy_engine();
    if let DropType::FungibleToken(data) = &mut engine.drop_for_id[2].drop_type {
        data.ft_storage = Some(1);
    }
    assert!(!engine.is_well_formed());
}

#[test]
fn a_drop_of_an_unknown_funder_is_found() {
    let mut engine = busy_engine();
    engine.drop_for_id[1].owner_id = String::from("carol");
    assert!(!engine.is_well_formed());
}

#[test]
fn the_probe_is_stored_and_removed_without_a_trace() {
    let mut engine = busy_engine();
    let before = engine.clone();
    assert!(engine.store_probe(1));
    match &engine.drop_for_id[1].drop_type {
        DropType::NonFungibleToken(data) => {
            assert_eq!(data.token_ids, vec![String::from("the-longest-token")])
        }
        other => panic!("unexpected payload {:?}", other),
    }
    assert_ne!(engine, before);
    assert!(engine.remove_probe(1));
    assert_eq!(engine, before);
    assert!(!engine.remove_probe(1));
    assert_eq!(engine, before);
}

#[test]
fn only_token_drops_take_the_probe() {
    let mut engine = busy_engine();
    let before = engine.clone();
    assert!(!engine.store_probe(0));
    assert!(!engine.store_probe(2));
    assert!(!engine.store_probe(3));
    assert!(!engine.remove_probe(0));
    assert!(!engine.remove_probe(3));
    assert_eq!(engine, before);
}
