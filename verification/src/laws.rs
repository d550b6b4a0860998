//! What holds of the engine across its entry points.

use vstd::prelude::*;
use crate::engine::{request_valid, Admission, KeyGrant, Keypom};
use crate::extend::uses_follow_keys;
use crate::keys::key_views;
use crate::payload::{FCData, FTDataConfig, NFTDataConfig, StorageBalanceBounds};
use crate::platform::StorageUsage;
use crate::probe::token_queue;
use crate::types::{uses_per_key_of, AdmissionError, DropConfig, DropId, DropMetadata};

verus! {

/// A key belongs to at most one drop.
pub proof fn law_key_has_one_owner(engine: Keypom, first: int, second: int, key: Seq<u8>)
    requires
        engine.wf(),
        0 <= first < engine.drop_for_id.len(),
        0 <= second < engine.drop_for_id.len(),
        engine.drop_for_id[first].pks@.contains_key(key),
        engine.drop_for_id[second].pks@.contains_key(key),
    ensures
        first == second,
{
}

/// The index names a drop for a key exactly when that drop's table holds the key.
pub proof fn law_index_agrees_with_tables(engine: Keypom, drop_id: int, key: Seq<u8>)
    requires
        engine.wf(),
        0 <= drop_id < engine.drop_for_id.len(),
    ensures
        engine.drop_for_id[drop_id].pks@.contains_key(key) <==> (
        engine.drop_id_for_pk@.contains_key(key) && engine.drop_id_for_pk@[key] == drop_id),
{
}

/// Creating a drop takes exactly the required deposit from the funder's balance and
/// from no other, and afterwards every key of the batch belongs to the new drop and
/// to no other.
pub proof fn law_creation_charges_and_marks(
    pre: Keypom,
    post: Keypom,
    funder: Seq<char>,
    keys: Seq<Seq<u8>>,
    deposit_per_use: u128,
    config: Option<DropConfig>,
    metadata: Option<DropMetadata>,
    ft_data: Option<FTDataConfig>,
    nft_data: Option<NFTDataConfig>,
    fc_data: Option<FCData>,
    usage: StorageUsage,
    storage_cost_per_byte: u128,
    admission: Admission,
)
    requires
        pre.wf(),
        post.wf(),
        pre.creation_fault(
            funder,
            keys,
            deposit_per_use,
            config,
            ft_data,
            nft_data,
            fc_data,
            usage,
            storage_cost_per_byte,
        ) is None,
        pre.created(
            post,
            funder,
            keys,
            deposit_per_use,
            config,
            metadata,
            ft_data,
            nft_data,
            fc_data,
            usage,
            storage_cost_per_byte,
            admission,
        ),
    ensures
        post.balance_of(funder) == pre.balance_of(funder) - pre.creation_terms(
            funder,
            keys.len(),
            deposit_per_use,
            config,
            nft_data,
            fc_data,
            usage,
            storage_cost_per_byte,
        ).required(),
        forall|other: Seq<char>| other != funder ==> post.balance_of(other) == pre.balance_of(other),
        forall|j: int|
            0 <= j < keys.len() ==> post.drop_id_for_pk@.contains_key(#[trigger] keys[j])
                && post.drop_id_for_pk@[keys[j]] == admission.drop_id,
        forall|j: int, i: int|
            0 <= j < keys.len() && 0 <= i < post.drop_for_id.len() && i != admission.drop_id
                ==> !(#[trigger] post.drop_for_id[i]).pks@.contains_key(#[trigger] keys[j]),
{
    pre.lemma_creation_fees_within_required(
        funder,
        keys.len(),
        deposit_per_use,
        config,
        ft_data,
        nft_data,
        fc_data,
        usage,
        storage_cost_per_byte,
    );
    assert forall|j: int| 0 <= j < keys.len() implies post.drop_id_for_pk@.contains_key(
        #[trigger] keys[j],
    ) && post.drop_id_for_pk@[keys[j]] == admission.drop_id by {
        assert(keys.contains(keys[j]));
    }
}

/// Storing the probe in a drop and removing it again leaves every record as it
/// was: the drop holds the token identifiers that it held before, and nothing else
/// has changed either.
pub proof fn law_probe_leaves_no_trace(
    before: Keypom,
    probed: Keypom,
    after: Keypom,
    drop_id: DropId,
)
    requires
        before.takes_tokens(drop_id),
        before.probe_stored(probed, drop_id),
        probed.probe_removed(after, drop_id),
    ensures
        before.same_but_tokens_of(after, drop_id),
        token_queue(after.drop_for_id[drop_id as int]) == token_queue(
            before.drop_for_id[drop_id as int],
        ),
{
    let held = token_queue(before.drop_for_id[drop_id as int]);
    let probe = before.drop_for_id[drop_id as int].drop_type->NonFungibleToken_0.longest_token_id;
    assert(held.push(probe).drop_last() =~= held);
    assert forall|i: int|
        0 <= i < before.drop_for_id.len() && i != drop_id implies #[trigger] after.drop_for_id[i]
        == before.drop_for_id[i] by {
        assert(probed.drop_for_id[i] == before.drop_for_id[i]);
    }
}

/// A drop that was just created for non-fungible tokens holds no token identifier.
pub proof fn law_new_token_drop_holds_nothing(
    pre: Keypom,
    post: Keypom,
    funder: Seq<char>,
    keys: Seq<Seq<u8>>,
    deposit_per_use: u128,
    config: Option<DropConfig>,
    metadata: Option<DropMetadata>,
    ft_data: Option<FTDataConfig>,
    nft_data: Option<NFTDataConfig>,
    fc_data: Option<FCData>,
    usage: StorageUsage,
    storage_cost_per_byte: u128,
    admission: Admission,
)
    requires
        pre.created(
            post,
            funder,
            keys,
            deposit_per_use,
            config,
            metadata,
            ft_data,
            nft_data,
            fc_data,
            usage,
            storage_cost_per_byte,
            admission,
        ),
    ensures
        token_queue(post.drop_for_id[admission.drop_id as int]) == Seq::<String>::empty(),
{
    assert(post.drop_for_id[admission.drop_id as int] == post.drop_for_id@.last());
}

/// A key that already has an owner, or that occurs twice in the batch, has an
/// otherwise acceptable request to create a drop turned down as a duplicate.
pub proof fn law_creation_rejects_duplicates(
    pre: Keypom,
    funder: Seq<char>,
    keys: Seq<Seq<u8>>,
    deposit_per_use: u128,
    config: Option<DropConfig>,
    ft_data: Option<FTDataConfig>,
    nft_data: Option<NFTDataConfig>,
    fc_data: Option<FCData>,
    usage: StorageUsage,
    storage_cost_per_byte: u128,
    j: int,
)
    requires
        pre.wf(),
        request_valid(pre.platform, deposit_per_use, config, ft_data, nft_data, fc_data),
        pre.user_balances@.contains_key(funder),
        0 <= j < keys.len(),
        pre.drop_id_for_pk@.contains_key(keys[j]) || exists|i: int|
            0 <= i < keys.len() && i != j && keys[i] == keys[j],
    ensures
        pre.creation_fault(
            funder,
            keys,
            deposit_per_use,
            config,
            ft_data,
            nft_data,
            fc_data,
            usage,
            storage_cost_per_byte,
        ) == Some(AdmissionError::DuplicateKey),
{
}

/// A key that already has an owner, or that occurs twice in the batch, has the
/// funder's request to add keys to a funded drop turned down as a duplicate.
pub proof fn law_extension_rejects_duplicates(
    pre: Keypom,
    caller: Seq<char>,
    keys: Seq<Seq<u8>>,
    drop_id: DropId,
    usage: StorageUsage,
    storage_cost_per_byte: u128,
    j: int,
)
    requires
        pre.wf(),
        drop_id < pre.drop_for_id.len(),
        pre.drop_for_id[drop_id as int].owner_id@ == caller,
        pre.drop_for_id[drop_id as int].status is Funded,
        0 <= j < keys.len(),
        pre.drop_id_for_pk@.contains_key(keys[j]) || exists|i: int|
            0 <= i < keys.len() && i != j && keys[i] == keys[j],
    ensures
        pre.extension_fault(caller, keys, drop_id, usage, storage_cost_per_byte) == Some(AdmissionError::DuplicateKey),
{
}

/// Adding keys raises the funded uses of a drop by the uses per key times the number
/// of keys where the drop hands out value or makes invocations, and leaves them as
/// they are where assets have to be sent first. The new keys belong to the drop.
pub proof fn law_extension_registers_uses(
    pre: Keypom,
    post: Keypom,
    keys: Seq<Seq<u8>>,
    drop_id: DropId,
    usage: StorageUsage,
    storage_cost_per_byte: u128,
    admission: Admission,
)
    requires
        pre.wf(),
        post.wf(),
        drop_id < pre.drop_for_id.len(),
        pre.extended(post, keys, drop_id, usage, storage_cost_per_byte, admission),
    ensures
        uses_follow_keys(pre.drop_for_id[drop_id as int].drop_type)
            ==> post.drop_for_id[drop_id as int].registered_uses
            == pre.drop_for_id[drop_id as int].registered_uses
            + pre.drop_for_id[drop_id as int].uses_per_key() * keys.len(),
        !uses_follow_keys(pre.drop_for_id[drop_id as int].drop_type)
            ==> post.drop_for_id[drop_id as int].registered_uses
            == pre.drop_for_id[drop_id as int].registered_uses,
        forall|j: int|
            0 <= j < keys.len() ==> post.drop_id_for_pk@.contains_key(#[trigger] keys[j])
                && post.drop_id_for_pk@[keys[j]] == drop_id,
{
    assert forall|j: int| 0 <= j < keys.len() implies post.drop_id_for_pk@.contains_key(
        #[trigger] keys[j],
    ) && post.drop_id_for_pk@[keys[j]] == drop_id by {
        assert(keys.contains(keys[j]));
    }
}

/// Creating a fungible-token drop makes no key of the batch redeemable: the caller
/// is told to ask the registry, and no token is to be issued.
pub proof fn law_pending_drop_has_no_redeemable_key(
    pre: Keypom,
    post: Keypom,
    funder: Seq<char>,
    keys: Seq<Seq<u8>>,
    deposit_per_use: u128,
    config: Option<DropConfig>,
    metadata: Option<DropMetadata>,
    ft_data: Option<FTDataConfig>,
    nft_data: Option<NFTDataConfig>,
    fc_data: Option<FCData>,
    usage: StorageUsage,
    storage_cost_per_byte: u128,
    admission: Admission,
)
    requires
        pre.wf(),
        post.wf(),
        ft_data is Some,
        pre.created(
            post,
            funder,
            keys,
            deposit_per_use,
            config,
            metadata,
            ft_data,
            nft_data,
            fc_data,
            usage,
            storage_cost_per_byte,
            admission,
        ),
    ensures
        admission.next is AskRegistry,
        forall|j: int| 0 <= j < keys.len() ==> !post.redeemable(#[trigger] keys[j]),
{
    assert forall|j: int| 0 <= j < keys.len() implies !post.redeemable(#[trigger] keys[j]) by {
        assert(keys.contains(keys[j]));
    }
}

/// A key of a drop that is pending or has failed is not redeemable.
pub proof fn law_unfunded_drop_has_no_redeemable_key(engine: Keypom, drop_id: int, key: Seq<u8>)
    requires
        engine.wf(),
        0 <= drop_id < engine.drop_for_id.len(),
        engine.drop_for_id[drop_id].pks@.contains_key(key),
        !(engine.drop_for_id[drop_id].status is Funded),
    ensures
        !engine.redeemable(key),
{
}

/// Funding a pending drop yields one token for each of the drop's keys, each with an
/// allowance of the base allowance for the drop's compute budget times the uses per
/// key, and makes every one of these keys redeemable.
pub proof fn law_settlement_issues_every_key(
    pre: Keypom,
    post: Keypom,
    drop_id: DropId,
    cost_per_use: u128,
    grant: KeyGrant,
)
    requires
        pre.wf(),
        post.wf(),
        drop_id < pre.drop_for_id.len(),
        pre.settled(post, drop_id, cost_per_use, grant),
    ensures
        grant.public_keys.len() == pre.drop_for_id[drop_id as int].pks.keys.len(),
        grant.allowance == pre.platform.base_allowance(
            pre.drop_for_id[drop_id as int].required_gas,
        ) * pre.drop_for_id[drop_id as int].uses_per_key(),
        forall|j: int|
            0 <= j < grant.public_keys.len() ==> post.redeemable(
                #[trigger] grant.public_keys[j]@,
            ),
{
    let drop = pre.drop_for_id[drop_id as int];
    let order = drop.pks.order();
    assert(grant.public_keys.len() == order.len());
    assert forall|j: int| 0 <= j < grant.public_keys.len() implies post.redeemable(
        #[trigger] grant.public_keys[j]@,
    ) by {
        let key = grant.public_keys[j]@;
        assert(key_views(grant.public_keys@)[j] == key);
        assert(order[j] == key);
        crate::assoc::lemma_assoc_at(order, drop.pks.infos@, j);
        assert(drop.pks@.contains_key(key));
        assert(pre.drop_id_for_pk@[key] == drop_id);
    }
}

/// Funding the fungible-token drop that a request created yields exactly one token
/// for each key of the request, each with an allowance of the base allowance for the
/// default compute budget times the uses per key; every key of the request is
/// redeemable afterwards; and the funder has paid, all in all, the deposit required
/// at creation and the cost of registering a holder for every use of every key.
pub proof fn law_settled_drop_issues_requested_keys(
    before: Keypom,
    pending: Keypom,
    after: Keypom,
    funder: Seq<char>,
    keys: Seq<Seq<u8>>,
    deposit_per_use: u128,
    config: Option<DropConfig>,
    metadata: Option<DropMetadata>,
    ft_data: Option<FTDataConfig>,
    nft_data: Option<NFTDataConfig>,
    fc_data: Option<FCData>,
    usage: StorageUsage,
    storage_cost_per_byte: u128,
    admission: Admission,
    bounds: StorageBalanceBounds,
    grant: KeyGrant,
)
    requires
        before.wf(),
        ft_data is Some,
        before.creation_fault(
            funder,
            keys,
            deposit_per_use,
            config,
            ft_data,
            nft_data,
            fc_data,
            usage,
            storage_cost_per_byte,
        ) is None,
        before.created(
            pending,
            funder,
            keys,
            deposit_per_use,
            config,
            metadata,
            ft_data,
            nft_data,
            fc_data,
            usage,
            storage_cost_per_byte,
            admission,
        ),
        pending.settlement_fault(admission.drop_id, Some(bounds)) is None,
        pending.settled(after, admission.drop_id, bounds.min, grant),
    ensures
        key_views(grant.public_keys@) == keys,
        grant.public_keys.len() == keys.len(),
        grant.allowance == before.platform.base_allowance(before.platform.wallet_gas)
            * uses_per_key_of(config),
        forall|j: int| 0 <= j < keys.len() ==> after.redeemable(#[trigger] keys[j]),
        after.user_balances@.contains_key(funder),
        after.user_balances@[funder] == before.user_balances@[funder] - before.creation_terms(
            funder,
            keys.len(),
            deposit_per_use,
            config,
            nft_data,
            fc_data,
            usage,
            storage_cost_per_byte,
        ).required() - bounds.min * uses_per_key_of(config) * keys.len(),
{
    before.lemma_creation_fees_within_required(
        funder,
        keys.len(),
        deposit_per_use,
        config,
        ft_data,
        nft_data,
        fc_data,
        usage,
        storage_cost_per_byte,
    );
    let id = before.drop_for_id.len() as int;
    let drop = pending.drop_for_id[id];
    assert(drop == pending.drop_for_id@.last());
    assert(drop.pks.keys.len() == keys.len());
    assert(key_views(grant.public_keys@).len() == grant.public_keys.len());
    assert forall|j: int| 0 <= j < keys.len() implies after.redeemable(#[trigger] keys[j]) by {
        assert(keys.contains(keys[j]));
    }
}

/// A fungible-token drop that falls through leaves the funder's balance, the fees
/// earned and the sum of funds as they were before the drop was created, and none
/// of its keys redeemable.
pub proof fn law_failed_settlement_restores_balance(
    before: Keypom,
    pending: Keypom,
    after: Keypom,
    funder: Seq<char>,
    keys: Seq<Seq<u8>>,
    deposit_per_use: u128,
    config: Option<DropConfig>,
    metadata: Option<DropMetadata>,
    ft_data: Option<FTDataConfig>,
    nft_data: Option<NFTDataConfig>,
    fc_data: Option<FCData>,
    usage: StorageUsage,
    storage_cost_per_byte: u128,
    admission: Admission,
)
    requires
        before.wf(),
        ft_data is Some,
        before.creation_fault(
            funder,
            keys,
            deposit_per_use,
            config,
            ft_data,
            nft_data,
            fc_data,
            usage,
            storage_cost_per_byte,
        ) is None,
        before.created(
            pending,
            funder,
            keys,
            deposit_per_use,
            config,
            metadata,
            ft_data,
            nft_data,
            fc_data,
            usage,
            storage_cost_per_byte,
            admission,
        ),
        pending.abandoned(after, admission.drop_id),
    ensures
        after.user_balances@ == before.user_balances@,
        after.fees_collected == before.fees_collected,
        after.funds_held == before.funds_held,
        forall|j: int| 0 <= j < keys.len() ==> !after.redeemable(#[trigger] keys[j]),
{
    let terms = before.creation_terms(
        funder,
        keys.len(),
        deposit_per_use,
        config,
        nft_data,
        fc_data,
        usage,
        storage_cost_per_byte,
    );
    before.lemma_creation_fees_within_required(
        funder,
        keys.len(),
        deposit_per_use,
        config,
        ft_data,
        nft_data,
        fc_data,
        usage,
        storage_cost_per_byte,
    );
    let id = before.drop_for_id.len() as int;
    assert(pending.drop_for_id[id] == pending.drop_for_id@.last());
    assert(pending.drop_for_id[id].held() + pending.drop_for_id[id].pending_fees()
        == terms.required());
    assert(after.user_balances@ =~= before.user_balances@);
    assert forall|j: int| 0 <= j < keys.len() implies !after.redeemable(#[trigger] keys[j]) by {
        assert(keys.contains(keys[j]));
    }
}

} // verus!
