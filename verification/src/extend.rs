//! Adding keys to a drop: the same checks and charges as for a new drop, without the
//! fee for the drop itself and with what the drop has already fixed.

use vstd::prelude::*;
use crate::deposit::DepositTerms;
use crate::engine::{fc_deposits, fc_none, token_scope, Admission, KeyGrant, Keypom, NextStep};
use crate::fees::applicable_fees;
use crate::keys::{batch_is_fresh, fresh_key_infos, key_views, owned_by};
use crate::payload::{gas_override, lemma_none_within_uses, DropType, FCData, MethodTally};
use crate::platform::{storage_byte_cost, StorageUsage, STORAGE_PRICE_PER_BYTE};
use crate::store::{lemma_held_update, Drop, DropStatus};
use crate::types::{claim_permission, method_scope, uses_per_key, AccountId, AdmissionError,
    DropId, MethodScope, PublicKey};

verus! {

/// The function-call payload of a drop, if it has one.
pub open spec fn function_calls(drop_type: DropType) -> Option<FCData> {
    match drop_type {
        DropType::FunctionCall(data) => Some(data),
        _ => None,
    }
}

/// Whether a drop's funded uses grow with its keys: they do unless assets have to
/// be sent for them first.
pub open spec fn uses_follow_keys(drop_type: DropType) -> bool {
    drop_type is Simple || drop_type is FunctionCall
}

impl Keypom {
    /// The counters of the drop stay within their range.
    pub open spec fn extension_within_capacity(&self, drop: Drop, key_count: nat) -> bool {
        let uses = drop.uses_per_key();
        &&& uses * key_count <= u64::MAX
        &&& uses_follow_keys(drop.drop_type) ==> drop.registered_uses + uses * key_count
            <= u64::MAX
        &&& drop.next_key_id + key_count <= u64::MAX
    }

    /// What the deposit for more keys of a drop is computed from.
    pub open spec fn extension_terms(
        &self,
        drop: Drop,
        key_count: nat,
        usage: StorageUsage,
        storage_cost_per_byte: u128,
    ) -> DepositTerms {
        let uses = drop.uses_per_key();
        let fees = applicable_fees(self.fees_per_user@, self.default_fees, drop.owner_id@);
        DepositTerms {
            drop_fee: 0,
            key_fee: fees.key_fee,
            storage_bytes: usage.bytes_added,
            storage_cost_per_byte,
            key_count: key_count as u64,
            allowance_per_key: self.platform.allowance_for(drop.required_gas, uses) as u128,
            key_registration_cost: self.platform.access_key_storage,
            deposit_per_use: drop.deposit_per_use,
            uses_per_key: uses,
            none_count: fc_none(function_calls(drop.drop_type), uses) as u64,
            longest_token_bytes: match drop.drop_type {
                DropType::NonFungibleToken(data) => data.storage_for_longest,
                _ => 0,
            },
            fc_deposits_per_key: fc_deposits(function_calls(drop.drop_type), uses) as u128,
            registration_cost_per_use: match drop.drop_type {
                DropType::FungibleToken(data) => match data.ft_storage {
                    Some(cost) => cost,
                    None => 0,
                },
                _ => 0,
            },
        }
    }

    /// Why a request to add keys is turned down, if it is. The checks are made in this
    /// order, and the first that fails decides.
    pub open spec fn extension_fault(
        &self,
        caller: Seq<char>,
        keys: Seq<Seq<u8>>,
        drop_id: DropId,
        usage: StorageUsage,
        storage_cost_per_byte: u128,
    ) -> Option<AdmissionError> {
        if drop_id >= self.drop_for_id.len() {
            Some(AdmissionError::DropNotFound)
        } else {
            let drop = self.drop_for_id[drop_id as int];
            if drop.owner_id@ != caller {
                Some(AdmissionError::NotOwner)
            } else if !(drop.status is Funded) {
                Some(AdmissionError::NotFunded)
            } else if !batch_is_fresh(self.drop_id_for_pk@, keys) {
                Some(AdmissionError::DuplicateKey)
            } else if !self.extension_within_capacity(drop, keys.len()) {
                Some(AdmissionError::CapacityExceeded)
            } else if self.extension_terms(drop, keys.len(), usage, storage_cost_per_byte).required()
                > self.user_balances@[caller] {
                Some(AdmissionError::InsufficientBalance)
            } else {
                None
            }
        }
    }

    /// The record of a drop after keys were added, `before` being the record before:
    /// the new keys follow the old ones, with fresh usage state and the next sequence
    /// numbers; the funded uses grow with them unless assets have to be sent first.
    pub open spec fn drop_extended(
        &self,
        before: Drop,
        after: Drop,
        keys: Seq<Seq<u8>>,
    ) -> bool {
        let uses = before.uses_per_key();
        let allowance = self.platform.allowance_for(before.required_gas, uses) as u128;
        &&& after.owner_id == before.owner_id
        &&& after.deposit_per_use == before.deposit_per_use
        &&& after.required_gas == before.required_gas
        &&& after.drop_type == before.drop_type
        &&& after.config == before.config
        &&& after.metadata == before.metadata
        &&& after.status == before.status
        &&& after.pks.wf()
        &&& after.pks.order() == before.pks.order() + keys
        &&& after.pks.infos@ == before.pks.infos@ + fresh_key_infos(
            keys.len(),
            uses,
            allowance,
            before.next_key_id,
        )
        &&& after.next_key_id == before.next_key_id + keys.len()
        &&& after.registered_uses == (if uses_follow_keys(before.drop_type) {
            before.registered_uses + uses * keys.len()
        } else {
            before.registered_uses as int
        })
    }

    /// The state after keys were added to a drop, `self` being the state before.
    pub open spec fn extended(
        &self,
        post: Keypom,
        keys: Seq<Seq<u8>>,
        drop_id: DropId,
        usage: StorageUsage,
        storage_cost_per_byte: u128,
        admission: Admission,
    ) -> bool {
        let before = self.drop_for_id[drop_id as int];
        let owner = before.owner_id@;
        let terms = self.extension_terms(before, keys.len(), usage, storage_cost_per_byte);
        &&& post.platform == self.platform
        &&& post.default_fees == self.default_fees
        &&& post.fees_per_user == self.fees_per_user
        &&& post.user_balances@ == self.user_balances@.insert(
            owner,
            (self.user_balances@[owner] - terms.required()) as u128,
        )
        &&& post.fees_collected == self.fees_collected + terms.fees()
        &&& post.funds_held == self.funds_held - terms.required() + terms.fees()
        &&& post.next_drop_id == self.next_drop_id
        &&& post.drop_for_id@.len() == self.drop_for_id@.len()
        &&& forall|i: int|
            0 <= i < self.drop_for_id.len() && i != drop_id ==> #[trigger] post.drop_for_id[i]
                == self.drop_for_id[i]
        &&& self.drop_extended(before, post.drop_for_id[drop_id as int], keys)
        &&& post.drop_id_for_pk@ == self.drop_id_for_pk@.union_prefer_right(
            owned_by(keys, drop_id),
        )
        &&& admission.drop_id == drop_id
        &&& admission.next matches NextStep::IssueTokens(grant)
        &&& key_views(grant.public_keys@) == keys
        &&& grant.allowance == terms.allowance_per_key
        &&& grant.scope == token_scope(before.config, gas_override(function_calls(before.drop_type)))
    }

    /// Adds one key for each entry of `public_keys` to a drop of `caller`, with storage
    /// priced at `storage_cost_per_byte`.
    ///
    /// The deposit is computed as for a new drop, without the fee for the drop, and
    /// is taken from the funder's balance. A request that is turned down leaves the
    /// state as it was.
    pub fn add_keys_at_price(
        &mut self,
        caller: &AccountId,
        public_keys: Vec<PublicKey>,
        drop_id: DropId,
        usage: StorageUsage,
        storage_cost_per_byte: u128,
    ) -> (result: Result<Admission, AdmissionError>)
        requires
            old(self).wf(),
        ensures
            final(self).wf(),
            match result {
                Ok(admission) => {
                    &&& old(self).extension_fault(caller@, key_views(public_keys@), drop_id, usage, storage_cost_per_byte)
                        is None
                    &&& old(self).extended(
                        *final(self),
                        key_views(public_keys@),
                        drop_id,
                        usage,
                        storage_cost_per_byte,
                        admission,
                    )
                },
                Err(e) => {
                    &&& old(self).extension_fault(caller@, key_views(public_keys@), drop_id, usage, storage_cost_per_byte)
                        == Some(e)
                    &&& *final(self) == *old(self)
                },
            },
    {
        let ghost pre = *self;
        let ghost keys = key_views(public_keys@);
        if drop_id >= self.drop_for_id.len() as u128 {
            return Err(AdmissionError::DropNotFound);
        }
        let at: usize = drop_id as usize;
        let drop = &self.drop_for_id[at];
        let ghost before = *drop;
        assert(before.wf());
        if drop.owner_id != *caller {
            return Err(AdmissionError::NotOwner);
        }
        match drop.status {
            DropStatus::Funded => {},
            _ => {
                return Err(AdmissionError::NotFunded);
            },
        }
        if !self.drop_id_for_pk.accepts(&public_keys) {
            return Err(AdmissionError::DuplicateKey);
        }
        let uses = uses_per_key(&drop.config);
        let mut scope = method_scope(claim_permission(&drop.config));
        let mut tally = MethodTally { deposits: Some(0), none_count: 0 };
        let mut longest_token_bytes: u128 = 0;
        let mut registration_cost_per_use: u128 = 0;
        let mut uses_grow = false;
        match &drop.drop_type {
            DropType::FunctionCall(data) => {
                if data.attached_gas().is_some() {
                    scope = MethodScope::ClaimOnly;
                }
                match data.tally(uses) {
                    Ok(t) => {
                        tally = t;
                    },
                    Err(_) => {
                        // not reached: the lists of a well-formed drop fit its uses
                        return Err(AdmissionError::InvalidConfig);
                    },
                }
                proof {
                    lemma_none_within_uses(data.methods@, uses);
                }
                uses_grow = true;
            },
            DropType::NonFungibleToken(data) => {
                longest_token_bytes = data.storage_for_longest;
            },
            DropType::FungibleToken(data) => {
                registration_cost_per_use =
                match data.ft_storage {
                    Some(cost) => cost,
                    None => 0,
                };
            },
            DropType::Simple => {
                uses_grow = true;
            },
        }
        let key_count: u64 = public_keys.len() as u64;
        let allowance = match self.platform.allowance_per_key(drop.required_gas, uses) {
            Some(a) => a,
            None => {
                // not reached: the allowance was written down when the drop was created
                return Err(AdmissionError::CapacityExceeded);
            },
        };
        let attached = match tally.deposits {
            Some(d) => d,
            None => {
                // not reached: the deposits were written down when the drop was created
                return Err(AdmissionError::CapacityExceeded);
            },
        };
        let more_uses = match uses.checked_mul(key_count) {
            Some(u) => u,
            None => {
                return Err(AdmissionError::CapacityExceeded);
            },
        };
        let registered_uses = if uses_grow {
            match drop.registered_uses.checked_add(more_uses) {
                Some(u) => u,
                None => {
                    return Err(AdmissionError::CapacityExceeded);
                },
            }
        } else {
            drop.registered_uses
        };
        let first_id = drop.next_key_id;
        let next_key_id = match first_id.checked_add(key_count) {
            Some(n) => n,
            None => {
                return Err(AdmissionError::CapacityExceeded);
            },
        };
        assert(self.extension_within_capacity(before, keys.len()));
        let fees = self.fees_per_user.fees_for(caller, self.default_fees);
        let terms = DepositTerms {
            drop_fee: 0,
            key_fee: fees.key_fee,
            storage_bytes: usage.bytes_added,
            storage_cost_per_byte,
            key_count,
            allowance_per_key: allowance,
            key_registration_cost: self.platform.access_key_storage,
            deposit_per_use: drop.deposit_per_use,
            uses_per_key: uses,
            none_count: tally.none_count,
            longest_token_bytes,
            fc_deposits_per_key: attached,
            registration_cost_per_use,
        };
        assert(terms == self.extension_terms(before, keys.len(), usage, storage_cost_per_byte));
        let balance = match self.user_balances.get(caller) {
            Some(b) => b,
            None => {
                // not reached: the funder of a drop has a balance
                return Err(AdmissionError::NoBalance);
            },
        };
        let required = match terms.required_deposit() {
            Some(r) => r,
            None => {
                return Err(AdmissionError::InsufficientBalance);
            },
        };
        if required > balance {
            return Err(AdmissionError::InsufficientBalance);
        }
        proof {
            terms.lemma_fees_within_required();
            self.user_balances.lemma_balance_within_total(caller@);
        }
        let fee: u128 = fees.key_fee * (key_count as u128);

        let drop = &mut self.drop_for_id[at];
        drop.pks.enroll(&public_keys, uses, allowance, first_id);
        drop.next_key_id = next_key_id;
        drop.registered_uses = registered_uses;
        self.drop_id_for_pk.assign(&public_keys, drop_id);
        self.user_balances.set(caller, balance - required);
        self.fees_collected = self.fees_collected + fee;
        self.funds_held = self.funds_held - (required - fee);
        proof {
            let post = *self;
            let after = post.drop_for_id[at as int];
            lemma_held_update(pre.drop_for_id@, at as int, after);
            assert(post.drop_for_id@ =~= pre.drop_for_id@.update(at as int, after));
            assert(pre.drop_extended(before, after, keys));
            assert(after.wf());
            assert forall|i: int, k: Seq<u8>|
                0 <= i < post.drop_for_id.len() && #[trigger] post.drop_for_id[i].pks@.contains_key(
                    k,
                ) implies post.drop_id_for_pk@.contains_key(k) && post.drop_id_for_pk@[k] == i by {
                if i != at {
                    assert(post.drop_for_id[i] == pre.drop_for_id[i]);
                    assert(pre.drop_for_id[i].pks@.contains_key(k));
                    assert(pre.drop_id_for_pk@.contains_key(k));
                    assert(post.drop_id_for_pk@.contains_key(k));
                    assert(post.drop_id_for_pk@[k] == pre.drop_id_for_pk@[k]);
                } else if before.pks@.contains_key(k) {
                    assert(pre.drop_for_id[i].pks@.contains_key(k));
                    assert(pre.drop_id_for_pk@.contains_key(k));
                    assert(post.drop_id_for_pk@.contains_key(k));
                    assert(post.drop_id_for_pk@[k] == pre.drop_id_for_pk@[k]);
                } else {
                    assert(after.pks@.contains_key(k));
                    assert(keys.contains(k));
                    assert(post.drop_id_for_pk@.contains_key(k));
                    assert(post.drop_id_for_pk@[k] == drop_id);
                }
            }
            assert forall|k: Seq<u8>| #[trigger]
                post.drop_id_for_pk@.contains_key(k) implies post.drop_id_for_pk@[k]
                < post.drop_for_id.len() && post.drop_for_id[post.drop_id_for_pk@[k] as int].pks@.contains_key(
            k) by {
                if pre.drop_id_for_pk@.contains_key(k) {
                    assert(post.drop_id_for_pk@[k] == pre.drop_id_for_pk@[k]);
                    let i = pre.drop_id_for_pk@[k] as int;
                    assert(pre.drop_for_id[i].pks@.contains_key(k));
                } else {
                    assert(keys.contains(k));
                    assert(post.drop_id_for_pk@[k] == drop_id);
                }
            }
            assert forall|i: int| 0 <= i < post.drop_for_id.len() implies (
            #[trigger] post.drop_for_id[i]).wf() by {
                if i != at {
                    assert(post.drop_for_id[i] == pre.drop_for_id[i]);
                }
            }
            assert forall|i: int|
                0 <= i < post.drop_for_id.len() implies post.user_balances@.contains_key(
                (#[trigger] post.drop_for_id[i]).owner_id@,
            ) by {
                if i != at {
                    assert(post.drop_for_id[i] == pre.drop_for_id[i]);
                }
            }
        }
        let admission = Admission {
            drop_id,
            next: NextStep::IssueTokens(KeyGrant { public_keys, allowance, scope }),
        };
        proof {
            let post = *self;
            assert(pre.extension_fault(caller@, keys, drop_id, usage, storage_cost_per_byte) is None);
            assert(post.user_balances@ == pre.user_balances@.insert(
                before.owner_id@,
                (pre.user_balances@[before.owner_id@] - terms.required()) as u128,
            ));
            assert(post.fees_collected == pre.fees_collected + terms.fees());
            assert(post.funds_held == pre.funds_held - terms.required() + terms.fees());
            assert(pre.drop_extended(before, post.drop_for_id[drop_id as int], keys));
            assert(scope == token_scope(before.config, gas_override(function_calls(before.drop_type))));
        }
        Ok(admission)
    }

    /// Adds one key for each entry of `public_keys` to a drop of `caller`, with storage
    /// priced as the platform prices it.
    ///
    /// The deposit is computed as for a new drop, without the fee for the drop, and
    /// is taken from the funder's balance. A request that is turned down leaves the
    /// state as it was.
    pub fn add_keys(
        &mut self,
        caller: &AccountId,
        public_keys: Vec<PublicKey>,
        drop_id: DropId,
        usage: StorageUsage,
    ) -> (result: Result<Admission, AdmissionError>)
        requires
            old(self).wf(),
        ensures
            final(self).wf(),
            match result {
                Ok(admission) => {
                    &&& old(self).extension_fault(
                        caller@,
                        key_views(public_keys@),
                        drop_id,
                        usage,
                        STORAGE_PRICE_PER_BYTE,
                    ) is None
                    &&& old(self).extended(
                        *final(self),
                        key_views(public_keys@),
                        drop_id,
                        usage,
                        STORAGE_PRICE_PER_BYTE,
                        admission,
                    )
                },
                Err(e) => {
                    &&& old(self).extension_fault(
                        caller@,
                        key_views(public_keys@),
                        drop_id,
                        usage,
                        STORAGE_PRICE_PER_BYTE,
                    ) == Some(e)
                    &&& *final(self) == *old(self)
                },
            },
    {
        let storage_cost_per_byte = storage_byte_cost();
        self.add_keys_at_price(caller, public_keys, drop_id, usage, storage_cost_per_byte)
    }
}

} // verus!
