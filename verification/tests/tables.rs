use keypom::fees::FeeTable;
use keypom::keys::{KeyIndex, KeyTable};
use keypom::ledger::BalanceLedger;
use keypom::types::{claim_permission, method_scope, uses_per_key};
use keypom::{ClaimPermissions, DropConfig, FeeSchedule, KeyInfo, MethodScope};

#[test]
fn a_ledger_keeps_one_balance_for_each_account() {
    let mut ledger = BalanceLedger::new();
    let alice = String::from("alice");
    let bob = String::from("bob");
    assert_eq!(ledger.get(&alice), None);
    ledger.set(&alice, 10);
    ledger.set(&bob, 20);
    ledger.set(&alice, 30);
    assert_eq!(ledger.get(&alice), Some(30));
    assert_eq!(ledger.get(&bob), Some(20));
    assert_eq!(ledger.get(&String::from("alic")), None);
    assert_eq!(ledger.ids.len(), 2);
}

#[test]
fn a_fee_table_falls_back_to_the_default() {
    let mut table = FeeTable::new();
    let alice = String::from("alice");
    let default_fees = FeeSchedule { drop_fee: 5, key_fee: 6 };
    assert_eq!(table.fees_for(&alice, default_fees), default_fees);
    table.set(&alice, FeeSchedule { drop_fee: 1, key_fee: 2 });
    assert_eq!(table.fees_for(&alice, default_fees), FeeSchedule { drop_fee: 1, key_fee: 2 });
    assert_eq!(table.fees_for(&String::from("bob"), default_fees), default_fees);
    table.set(&alice, FeeSchedule { drop_fee: 3, key_fee: 4 });
    assert_eq!(table.fees_for(&alice, default_fees), FeeSchedule { drop_fee: 3, key_fee: 4 });
}

#[test]
fn a_key_table_numbers_its_keys_in_order() {
    let mut table = KeyTable::new();
    assert_eq!(table.len(), 0);
    table.enroll(&vec![vec![1], vec![2]], 3, 40, 0);
    table.enroll(&vec![vec![3]], 3, 40, 2);
    assert_eq!(table.len(), 3);
    assert_eq!(table.public_keys(), vec![vec![1], vec![2], vec![3]]);
    assert_eq!(
        table.get(&vec![2]),
        Some(KeyInfo { remaining_uses: 3, last_used: 0, allowance: 40, key_id: 1 })
    );
    assert_eq!(
        table.get(&vec![3]),
        Some(KeyInfo { remaining_uses: 3, last_used: 0, allowance: 40, key_id: 2 })
    );
    assert_eq!(table.get(&vec![4]), None);
    assert_eq!(table.get(&vec![]), None);
}

#[test]
fn an_index_accepts_only_fresh_batches() {
    let mut index = KeyIndex::new();
    assert!(index.accepts(&vec![]));
    assert!(index.accepts(&vec![vec![1], vec![2]]));
    assert!(!index.accepts(&vec![vec![1], vec![1]]));
    index.assign(&vec![vec![1], vec![2]], 7);
    assert_eq!(index.get(&vec![1]), Some(7));
    assert_eq!(index.get(&vec![2]), Some(7));
    assert_eq!(index.get(&vec![1, 0]), None);
    assert!(!index.accepts(&vec![vec![3], vec![2]]));
    assert!(index.accepts(&vec![vec![3], vec![1, 0]]));
    index.assign(&vec![vec![3]], 8);
    assert_eq!(index.get(&vec![3]), Some(8));
    assert_eq!(index.get(&vec![1]), Some(7));
}

#[test]
fn keys_are_compared_and_copied_byte_by_byte() {
    assert!(keypom::keys::same_key(&vec![1, 2, 3], &vec![1, 2, 3]));
    assert!(!keypom::keys::same_key(&vec![1, 2, 3], &vec![1, 2, 4]));
    assert!(!keypom::keys::same_key(&vec![1, 2, 3], &vec![1, 2]));
    assert!(keypom::keys::same_key(&vec![], &vec![]));
    assert_eq!(keypom::keys::copy_key(&vec![5, 6]), vec![5, 6]);
    assert_eq!(keypom::keys::find_key(&vec![vec![1], vec![2]], &vec![2]), Some(1));
    assert_eq!(keypom::keys::find_key(&vec![vec![1], vec![2]], &vec![3]), None);
    assert_eq!(
        keypom::ledger::find_account(&vec![String::from("a"), String::from("b")], &String::from("b")),
        Some(1)
    );
}

#[test]
fn a_configuration_is_read_with_its_defaults() {
    let mut config = DropConfig {
        uses_per_key: None,
        start_timestamp: None,
        throttle_timestamp: None,
        on_claim_refund_deposit: None,
        claim_permission: None,
        drop_root: None,
    };
    assert_eq!(uses_per_key(&None), 1);
    assert_eq!(uses_per_key(&Some(config.clone())), 1);
    assert_eq!(claim_permission(&None), None);
    assert_eq!(claim_permission(&Some(config.clone())), None);
    config.uses_per_key = Some(9);
    config.claim_permission = Some(ClaimPermissions::Claim);
    assert_eq!(uses_per_key(&Some(config.clone())), 9);
    assert_eq!(claim_permission(&Some(config)), Some(ClaimPermissions::Claim));
    assert_eq!(method_scope(None), MethodScope::Both);
    assert_eq!(method_scope(Some(ClaimPermissions::Claim)), MethodScope::ClaimOnly);
    assert_eq!(
        method_scope(Some(ClaimPermissions::CreateAccountAndClaim)),
        MethodScope::CreateAccountAndClaimOnly
    );
}
