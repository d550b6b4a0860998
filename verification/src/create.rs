//! Creating a drop: what is checked, what is charged, and what the state is afterwards.

use vstd::prelude::*;
use crate::deposit::DepositTerms;
use crate::engine::{fc_deposits, fc_none, gas_to_attach, payload_matches, request_valid,
    token_scope, Admission, KeyGrant, Keypom, NextStep};
use crate::fees::applicable_fees;
use crate::keys::{batch_is_fresh, fresh_key_infos, key_views, owned_by, KeyTable};
use crate::payload::{gas_override, lemma_none_within_uses, DropType, FCData, FTData,
    FTDataConfig, MethodTally, NFTData, NFTDataConfig};
use crate::platform::{storage_byte_cost, StorageUsage, STORAGE_PRICE_PER_BYTE};
use crate::store::{lemma_held_push, Drop, DropStatus};
use crate::types::{claim_permission, method_scope, uses_per_key, uses_per_key_of, AccountId,
    AdmissionError, DropConfig, DropId, DropMetadata, Gas, MethodScope, PublicKey};

verus! {

impl Keypom {
    /// The counters of a new drop and the amounts attached to its tokens can be written down.
    pub open spec fn creation_within_capacity(
        &self,
        key_count: nat,
        config: Option<DropConfig>,
        fc_data: Option<FCData>,
    ) -> bool {
        let uses = uses_per_key_of(config);
        &&& self.platform.allowance_for(gas_to_attach(self.platform, fc_data) as Gas, uses)
            <= u128::MAX
        &&& fc_deposits(fc_data, uses) <= u128::MAX
        &&& key_count <= u64::MAX
        &&& uses * key_count <= u64::MAX
    }

    /// What the deposit for a new drop is computed from.
    pub open spec fn creation_terms(
        &self,
        funder: Seq<char>,
        key_count: nat,
        deposit_per_use: u128,
        config: Option<DropConfig>,
        nft_data: Option<NFTDataConfig>,
        fc_data: Option<FCData>,
        usage: StorageUsage,
        storage_cost_per_byte: u128,
    ) -> DepositTerms {
        let uses = uses_per_key_of(config);
        let fees = applicable_fees(self.fees_per_user@, self.default_fees, funder);
        DepositTerms {
            drop_fee: fees.drop_fee,
            key_fee: fees.key_fee,
            storage_bytes: usage.bytes_added,
            storage_cost_per_byte,
            key_count: key_count as u64,
            allowance_per_key: self.platform.allowance_for(
                gas_to_attach(self.platform, fc_data) as Gas,
                uses,
            ) as u128,
            key_registration_cost: self.platform.access_key_storage,
            deposit_per_use,
            uses_per_key: uses,
            none_count: fc_none(fc_data, uses) as u64,
            longest_token_bytes: if nft_data is Some {
                usage.longest_token_bytes as u128
            } else {
                0
            },
            fc_deposits_per_key: fc_deposits(fc_data, uses) as u128,
            registration_cost_per_use: 0,
        }
    }

    /// For a consistent request the fees are part of the required deposit.
    pub proof fn lemma_creation_fees_within_required(
        &self,
        funder: Seq<char>,
        key_count: nat,
        deposit_per_use: u128,
        config: Option<DropConfig>,
        ft_data: Option<FTDataConfig>,
        nft_data: Option<NFTDataConfig>,
        fc_data: Option<FCData>,
        usage: StorageUsage,
        storage_cost_per_byte: u128,
    )
        requires
            request_valid(self.platform, deposit_per_use, config, ft_data, nft_data, fc_data),
        ensures
            0 <= self.creation_terms(
                funder,
                key_count,
                deposit_per_use,
                config,
                nft_data,
                fc_data,
                usage,
                storage_cost_per_byte,
            ).fees() <= self.creation_terms(
                funder,
                key_count,
                deposit_per_use,
                config,
                nft_data,
                fc_data,
                usage,
                storage_cost_per_byte,
            ).required(),
    {
        let terms = self.creation_terms(
            funder,
            key_count,
            deposit_per_use,
            config,
            nft_data,
            fc_data,
            usage,
            storage_cost_per_byte,
        );
        if let Some(data) = fc_data {
            lemma_none_within_uses(data.methods@, uses_per_key_of(config));
        }
        terms.lemma_fees_within_required();
    }

    /// Why a request to create a drop is turned down, if it is. The checks are made in
    /// this order, and the first that fails decides.
    pub open spec fn creation_fault(
        &self,
        funder: Seq<char>,
        keys: Seq<Seq<u8>>,
        deposit_per_use: u128,
        config: Option<DropConfig>,
        ft_data: Option<FTDataConfig>,
        nft_data: Option<NFTDataConfig>,
        fc_data: Option<FCData>,
        usage: StorageUsage,
        storage_cost_per_byte: u128,
    ) -> Option<AdmissionError> {
        if !request_valid(self.platform, deposit_per_use, config, ft_data, nft_data, fc_data) {
            Some(AdmissionError::InvalidConfig)
        } else if !self.user_balances@.contains_key(funder) {
            Some(AdmissionError::NoBalance)
        } else if !batch_is_fresh(self.drop_id_for_pk@, keys) {
            Some(AdmissionError::DuplicateKey)
        } else if !self.creation_within_capacity(keys.len(), config, fc_data) {
            Some(AdmissionError::CapacityExceeded)
        } else if self.creation_terms(
            funder,
            keys.len(),
            deposit_per_use,
            config,
            nft_data,
            fc_data,
            usage,
            storage_cost_per_byte,
        ).required() > self.user_balances@[funder] {
            Some(AdmissionError::InsufficientBalance)
        } else {
            None
        }
    }

    /// The record of a drop that was just created.
    pub open spec fn new_drop_matches(
        &self,
        drop: Drop,
        funder: Seq<char>,
        keys: Seq<Seq<u8>>,
        deposit_per_use: u128,
        config: Option<DropConfig>,
        metadata: Option<DropMetadata>,
        ft_data: Option<FTDataConfig>,
        nft_data: Option<NFTDataConfig>,
        fc_data: Option<FCData>,
        usage: StorageUsage,
        storage_cost_per_byte: u128,
    ) -> bool {
        let uses = uses_per_key_of(config);
        let gas = gas_to_attach(self.platform, fc_data) as Gas;
        let terms = self.creation_terms(
            funder,
            keys.len(),
            deposit_per_use,
            config,
            nft_data,
            fc_data,
            usage,
            storage_cost_per_byte,
        );
        &&& drop.owner_id@ == funder
        &&& drop.pks.wf()
        &&& drop.pks.order() == keys
        &&& drop.pks.infos@ == fresh_key_infos(keys.len(), uses, terms.allowance_per_key, 0)
        &&& drop.deposit_per_use == deposit_per_use
        &&& drop.registered_uses == (if ft_data is Some || nft_data is Some {
            0
        } else {
            uses * keys.len()
        })
        &&& drop.required_gas == gas
        &&& drop.config == config
        &&& drop.metadata == metadata
        &&& drop.next_key_id == keys.len()
        &&& drop.status == (if ft_data is Some {
            DropStatus::Pending {
                held: (terms.required() - terms.fees()) as u128,
                fees: terms.fees() as u128,
            }
        } else {
            DropStatus::Funded
        })
        &&& payload_matches(drop.drop_type, ft_data, nft_data, fc_data, usage)
    }

    /// What the caller has to do next: ask the registry for a fungible-token drop,
    /// issue one token for each key otherwise.
    pub open spec fn creation_step(
        &self,
        next: NextStep,
        funder: Seq<char>,
        keys: Seq<Seq<u8>>,
        deposit_per_use: u128,
        config: Option<DropConfig>,
        ft_data: Option<FTDataConfig>,
        nft_data: Option<NFTDataConfig>,
        fc_data: Option<FCData>,
        usage: StorageUsage,
        storage_cost_per_byte: u128,
    ) -> bool {
        match ft_data {
            Some(ft) => next matches NextStep::AskRegistry { contract_id } && contract_id
                == ft.contract_id,
            None => {
                &&& next matches NextStep::IssueTokens(grant)
                &&& key_views(grant.public_keys@) == keys
                &&& grant.allowance == self.creation_terms(
                    funder,
                    keys.len(),
                    deposit_per_use,
                    config,
                    nft_data,
                    fc_data,
                    usage,
                    storage_cost_per_byte,
                ).allowance_per_key
                &&& grant.scope == token_scope(config, gas_override(fc_data))
            },
        }
    }

    /// The state after a drop was created, `self` being the state before. The funder
    /// pays exactly the required deposit, of which the fees are booked as earned; the
    /// drop is appended; every key of the batch, and no other, gets the new drop as
    /// its owner.
    pub open spec fn created(
        &self,
        post: Keypom,
        funder: Seq<char>,
        keys: Seq<Seq<u8>>,
        deposit_per_use: u128,
        config: Option<DropConfig>,
        metadata: Option<DropMetadata>,
        ft_data: Option<FTDataConfig>,
        nft_data: Option<NFTDataConfig>,
        fc_data: Option<FCData>,
        usage: StorageUsage,
        storage_cost_per_byte: u128,
        admission: Admission,
    ) -> bool {
        let terms = self.creation_terms(
            funder,
            keys.len(),
            deposit_per_use,
            config,
            nft_data,
            fc_data,
            usage,
            storage_cost_per_byte,
        );
        let id = self.drop_for_id.len();
        &&& post.platform == self.platform
        &&& post.default_fees == self.default_fees
        &&& post.fees_per_user == self.fees_per_user
        &&& post.user_balances@ == self.user_balances@.insert(
            funder,
            (self.user_balances@[funder] - terms.required()) as u128,
        )
        &&& post.fees_collected == self.fees_collected + terms.fees()
        &&& post.funds_held == (if ft_data is Some {
            self.funds_held as int
        } else {
            self.funds_held - terms.required() + terms.fees()
        })
        &&& post.next_drop_id == id + 1
        &&& post.drop_for_id@.len() == id + 1
        &&& post.drop_for_id@.drop_last() == self.drop_for_id@
        &&& self.new_drop_matches(
            post.drop_for_id@.last(),
            funder,
            keys,
            deposit_per_use,
            config,
            metadata,
            ft_data,
            nft_data,
            fc_data,
            usage,
            storage_cost_per_byte,
        )
        &&& post.drop_id_for_pk@ == self.drop_id_for_pk@.union_prefer_right(
            owned_by(keys, id as DropId),
        )
        &&& admission.drop_id == id
        &&& self.creation_step(
            admission.next,
            funder,
            keys,
            deposit_per_use,
            config,
            ft_data,
            nft_data,
            fc_data,
            usage,
            storage_cost_per_byte,
        )
    }

    /// Creates a drop for `funder` with one key for each entry of `public_keys`, with
    /// storage priced at `storage_cost_per_byte`.
    ///
    /// The request is checked, the deposit is computed from the fees, the metered
    /// storage, and what each key needs, and is taken from the funder's balance.
    /// A request that is turned down leaves the state as it was.
    pub fn create_drop_at_price(
        &mut self,
        funder: &AccountId,
        public_keys: Vec<PublicKey>,
        deposit_per_use: u128,
        config: Option<DropConfig>,
        metadata: Option<DropMetadata>,
        ft_data: Option<FTDataConfig>,
        nft_data: Option<NFTDataConfig>,
        fc_data: Option<FCData>,
        usage: StorageUsage,
        storage_cost_per_byte: u128,
    ) -> (result: Result<Admission, AdmissionError>)
        requires
            old(self).wf(),
        ensures
            final(self).wf(),
            match result {
                Ok(admission) => {
                    &&& old(self).creation_fault(
                        funder@,
                        key_views(public_keys@),
                        deposit_per_use,
                        config,
                        ft_data,
                        nft_data,
                        fc_data,
                        usage,
                        storage_cost_per_byte,
                    ) is None
                    &&& old(self).created(
                        *final(self),
                        funder@,
                        key_views(public_keys@),
                        deposit_per_use,
                        config,
                        metadata,
                        ft_data,
                        nft_data,
                        fc_data,
                        usage,
                        storage_cost_per_byte,
                        admission,
                    )
                },
                Err(e) => {
                    &&& old(self).creation_fault(
                        funder@,
                        key_views(public_keys@),
                        deposit_per_use,
                        config,
                        ft_data,
                        nft_data,
                        fc_data,
                        usage,
                        storage_cost_per_byte,
                    ) == Some(e)
                    &&& *final(self) == *old(self)
                },
            },
    {
        let ghost pre = *self;
        let ghost keys = key_views(public_keys@);
        let count: u8 = (if ft_data.is_some() { 1u8 } else { 0u8 }) + (if nft_data.is_some() {
            1u8
        } else {
            0u8
        }) + (if fc_data.is_some() { 1u8 } else { 0u8 });
        if count > 1 {
            return Err(AdmissionError::InvalidConfig);
        }
        let uses = uses_per_key(&config);
        let mut gas: Gas = self.platform.wallet_gas;
        let mut scope = method_scope(claim_permission(&config));
        let mut tally = MethodTally { deposits: Some(0), none_count: 0 };
        match &fc_data {
            Some(data) => {
                if let Some(own) = data.attached_gas() {
                    if deposit_per_use != 0 || own > self.platform.wallet_gas
                        - self.platform.fc_gas_offset {
                        return Err(AdmissionError::InvalidConfig);
                    }
                    gas = own + self.platform.fc_gas_offset;
                    scope = MethodScope::ClaimOnly;
                }
                match data.tally(uses) {
                    Ok(t) => {
                        tally = t;
                    },
                    Err(_) => {
                        return Err(AdmissionError::InvalidConfig);
                    },
                }
                proof {
                    lemma_none_within_uses(data.methods@, uses);
                }
            },
            None => {},
        }
        if count == 0 && deposit_per_use == 0 {
            return Err(AdmissionError::InvalidConfig);
        }
        assert(request_valid(self.platform, deposit_per_use, config, ft_data, nft_data, fc_data));
        assert(gas == gas_to_attach(self.platform, fc_data));
        assert(scope == token_scope(config, gas_override(fc_data)));
        let balance = match self.user_balances.get(funder) {
            Some(b) => b,
            None => {
                return Err(AdmissionError::NoBalance);
            },
        };
        if !self.drop_id_for_pk.accepts(&public_keys) {
            return Err(AdmissionError::DuplicateKey);
        }
        let key_count: u64 = public_keys.len() as u64;
        let allowance = match self.platform.allowance_per_key(gas, uses) {
            Some(a) => a,
            None => {
                return Err(AdmissionError::CapacityExceeded);
            },
        };
        let attached = match tally.deposits {
            Some(d) => d,
            None => {
                return Err(AdmissionError::CapacityExceeded);
            },
        };
        let all_uses = match uses.checked_mul(key_count) {
            Some(u) => u,
            None => {
                return Err(AdmissionError::CapacityExceeded);
            },
        };
        assert(self.creation_within_capacity(keys.len(), config, fc_data));
        let fees = self.fees_per_user.fees_for(funder, self.default_fees);
        let terms = DepositTerms {
            drop_fee: fees.drop_fee,
            key_fee: fees.key_fee,
            storage_bytes: usage.bytes_added,
            storage_cost_per_byte,
            key_count,
            allowance_per_key: allowance,
            key_registration_cost: self.platform.access_key_storage,
            deposit_per_use,
            uses_per_key: uses,
            none_count: tally.none_count,
            longest_token_bytes: if nft_data.is_some() {
                usage.longest_token_bytes as u128
            } else {
                0
            },
            fc_deposits_per_key: attached,
            registration_cost_per_use: 0,
        };
        assert(terms == self.creation_terms(
            funder@,
            keys.len(),
            deposit_per_use,
            config,
            nft_data,
            fc_data,
            usage,
            storage_cost_per_byte,
        ));
        let required = match terms.required_deposit() {
            Some(r) => r,
            None => {
                return Err(AdmissionError::InsufficientBalance);
            },
        };
        if required > balance {
            return Err(AdmissionError::InsufficientBalance);
        }
        proof {
            terms.lemma_fees_within_required();
            self.user_balances.lemma_balance_within_total(funder@);
        }
        let fee: u128 = fees.drop_fee + fees.key_fee * (key_count as u128);
        let drop_id = self.next_drop_id;
        let pending = ft_data.is_some();

        let mut pks = KeyTable::new();
        pks.enroll(&public_keys, uses, allowance, 0);
        self.drop_id_for_pk.assign(&public_keys, drop_id);

        let next = match &ft_data {
            Some(ft) => NextStep::AskRegistry { contract_id: ft.contract_id.clone() },
            None => NextStep::IssueTokens(KeyGrant { public_keys, allowance, scope }),
        };
        let registered_uses: u64 = if pending || nft_data.is_some() {
            0
        } else {
            all_uses
        };
        let drop_type = match nft_data {
            Some(nft) => DropType::NonFungibleToken(
                NFTData {
                    sender_id: nft.sender_id,
                    contract_id: nft.contract_id,
                    longest_token_id: nft.longest_token_id,
                    storage_for_longest: usage.longest_token_bytes as u128,
                    token_ids: Vec::new(),
                },
            ),
            None => match ft_data {
                Some(ft) => DropType::FungibleToken(
                    FTData {
                        contract_id: ft.contract_id,
                        sender_id: ft.sender_id,
                        balance_per_use: ft.balance_per_use,
                        ft_storage: None,
                    },
                ),
                None => match fc_data {
                    Some(fc) => DropType::FunctionCall(fc),
                    None => DropType::Simple,
                },
            },
        };
        let drop = Drop {
            owner_id: funder.clone(),
            pks,
            deposit_per_use,
            registered_uses,
            required_gas: gas,
            drop_type,
            config,
            metadata,
            next_key_id: key_count,
            status: if pending {
                DropStatus::Pending { held: required - fee, fees: fee }
            } else {
                DropStatus::Funded
            },
        };
        proof {
            lemma_held_push(self.drop_for_id@, drop);
            assert(drop.wf());
        }
        self.drop_for_id.push(drop);
        self.user_balances.set(funder, balance - required);
        self.fees_collected = self.fees_collected + fee;
        if !pending {
            self.funds_held = self.funds_held - (required - fee);
        }
        self.next_drop_id = self.next_drop_id + 1;
        proof {
            assert(self.drop_for_id@.drop_last() =~= pre.drop_for_id@);
            let post = *self;
            let id = pre.drop_for_id.len() as int;
            assert forall|i: int, k: Seq<u8>|
                0 <= i < post.drop_for_id.len() && #[trigger] post.drop_for_id[i].pks@.contains_key(
                    k,
                ) implies post.drop_id_for_pk@.contains_key(k) && post.drop_id_for_pk@[k] == i by {
                if i < id {
                    assert(post.drop_for_id[i] == pre.drop_for_id[i]);
                    assert(pre.drop_for_id[i].pks@.contains_key(k));
                } else {
                    assert(keys.contains(k));
                }
            }
        }
        Ok(Admission { drop_id, next })
    }

    /// Creates a drop for `funder` with one key for each entry of `public_keys`, with
    /// storage priced as the platform prices it.
    ///
    /// The request is checked, the deposit is computed from the fees, the metered
    /// storage, and what each key needs, and is taken from the funder's balance.
    /// A request that is turned down leaves the state as it was.
    pub fn create_drop(
        &mut self,
        funder: &AccountId,
        public_keys: Vec<PublicKey>,
        deposit_per_use: u128,
        config: Option<DropConfig>,
        metadata: Option<DropMetadata>,
        ft_data: Option<FTDataConfig>,
        nft_data: Option<NFTDataConfig>,
        fc_data: Option<FCData>,
        usage: StorageUsage,
    ) -> (result: Result<Admission, AdmissionError>)
        requires
            old(self).wf(),
        ensures
            final(self).wf(),
            match result {
                Ok(admission) => {
                    &&& old(self).creation_fault(
                        funder@,
                        key_views(public_keys@),
                        deposit_per_use,
                        config,
                        ft_data,
                        nft_data,
                        fc_data,
                        usage,
                        STORAGE_PRICE_PER_BYTE,
                    ) is None
                    &&& old(self).created(
                        *final(self),
                        funder@,
                        key_views(public_keys@),
                        deposit_per_use,
                        config,
                        metadata,
                        ft_data,
                        nft_data,
                        fc_data,
                        usage,
                        STORAGE_PRICE_PER_BYTE,
                        admission,
                    )
                },
                Err(e) => {
                    &&& old(self).creation_fault(
                        funder@,
                        key_views(public_keys@),
                        deposit_per_use,
                        config,
                        ft_data,
                        nft_data,
                        fc_data,
                        usage,
                        STORAGE_PRICE_PER_BYTE,
                    ) == Some(e)
                    &&& *final(self) == *old(self)
                },
            },
    {
        let storage_cost_per_byte = storage_byte_cost();
        self.create_drop_at_price(
            funder,
            public_keys,
            deposit_per_use,
            config,
            metadata,
            ft_data,
            nft_data,
            fc_data,
            usage,
            storage_cost_per_byte,
        )
    }
}

} // verus!
