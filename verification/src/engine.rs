//! The engine's state, what holds of it between calls, and its plain operations:
//! paying in, agreeing fees, and looking things up.

use vstd::prelude::*;
use crate::fees::{FeeSchedule, FeeTable};
use crate::keys::KeyIndex;
use crate::ledger::BalanceLedger;
use crate::payload::{deposits_per_key, gas_override, methods_fit, none_per_key, DropType,
    FCData, FTDataConfig, NFTDataConfig};
use crate::platform::{Platform, StorageUsage};
use crate::store::{held_amounts, held_total, pending_fee_amounts, pending_fees_total, Drop,
    DropStatus};
use crate::types::{permission_of, scope_for, uses_per_key_of, AccountId, AdmissionError,
    DropConfig, DropId, Gas, KeyInfo, MethodScope, PublicKey};

verus! {

/// Authorization tokens to issue: one for each key, all with the same allowance and scope.
#[derive(Clone, Debug, PartialEq, Eq)]
pub struct KeyGrant {
    pub public_keys: Vec<PublicKey>,
    pub allowance: u128,
    pub scope: MethodScope,
}

/// What the caller has to do after an admission.
#[derive(Clone, Debug, PartialEq, Eq)]
pub enum NextStep {
    /// Issue the tokens.
    IssueTokens(KeyGrant),
    /// Ask the token contract what it charges to register a holder, and hand the
    /// answer to `resolve_storage_check`. No token may be issued before.
    AskRegistry { contract_id: AccountId },
}

/// The outcome of an admission.
#[derive(Clone, Debug, PartialEq, Eq)]
pub struct Admission {
    pub drop_id: DropId,
    pub next: NextStep,
}

/// The state of the engine.
#[derive(Clone, Debug, PartialEq, Eq)]
pub struct Keypom {
    /// Prices and limits of the platform.
    pub platform: Platform,
    /// Fees of funders without a schedule of their own.
    pub default_fees: FeeSchedule,
    /// Fees agreed with single funders.
    pub fees_per_user: FeeTable,
    /// Prepaid balances.
    pub user_balances: BalanceLedger,
    /// Fees earned so far.
    pub fees_collected: u128,
    /// The drops; a drop's id is its position.
    pub drop_for_id: Vec<Drop>,
    /// For every key, the drop that owns it.
    pub drop_id_for_pk: KeyIndex,
    /// The id that the next drop gets.
    pub next_drop_id: DropId,
    /// Everything the engine answers for: balances, what pending drops hold back, and fees.
    pub funds_held: u128,
}

/// How many of the three payloads a request names.
pub open spec fn payload_count(
    ft_data: Option<FTDataConfig>,
    nft_data: Option<NFTDataConfig>,
    fc_data: Option<FCData>,
) -> int {
    (if ft_data is Some { 1int } else { 0int }) + (if nft_data is Some { 1int } else { 0int }) + (
    if fc_data is Some { 1int } else { 0int })
}

/// A request is consistent: it names at most one payload; a payload that sets its own
/// compute budget stays under the ceiling and hands out no value; invocation lists fit
/// the uses per key; and a drop without payload hands out value.
pub open spec fn request_valid(
    platform: Platform,
    deposit_per_use: u128,
    config: Option<DropConfig>,
    ft_data: Option<FTDataConfig>,
    nft_data: Option<NFTDataConfig>,
    fc_data: Option<FCData>,
) -> bool {
    &&& payload_count(ft_data, nft_data, fc_data) <= 1
    &&& gas_override(fc_data) matches Some(gas) ==> deposit_per_use == 0 && gas
        <= platform.gas_ceiling()
    &&& fc_data matches Some(data) ==> methods_fit(data.methods@, uses_per_key_of(config))
    &&& payload_count(ft_data, nft_data, fc_data) == 0 ==> deposit_per_use > 0
}

/// The compute budget of each token: the payload's own plus the engine's share, or the default.
pub open spec fn gas_to_attach(platform: Platform, fc_data: Option<FCData>) -> int {
    match gas_override(fc_data) {
        Some(gas) => gas + platform.fc_gas_offset,
        None => platform.wallet_gas as int,
    }
}

/// The scope of each token: plain claims only where the payload sets its own compute
/// budget, else what the configuration says.
pub open spec fn token_scope(config: Option<DropConfig>, own_gas: Option<Gas>) -> MethodScope {
    if own_gas is Some {
        MethodScope::ClaimOnly
    } else {
        scope_for(permission_of(config))
    }
}

/// Uses of one key without invocation; 0 where there is no function-call payload.
pub open spec fn fc_none(fc_data: Option<FCData>, uses: u64) -> nat {
    match fc_data {
        Some(data) => none_per_key(data.methods@, uses),
        None => 0,
    }
}

/// Value that the invocations of one key attach; 0 where there is no function-call payload.
pub open spec fn fc_deposits(fc_data: Option<FCData>, uses: u64) -> nat {
    match fc_data {
        Some(data) => deposits_per_key(data.methods@, uses),
        None => 0,
    }
}

/// The payload of a new drop says what the request said, with nothing sent yet and
/// the registration cost unknown.
pub open spec fn payload_matches(
    drop_type: DropType,
    ft_data: Option<FTDataConfig>,
    nft_data: Option<NFTDataConfig>,
    fc_data: Option<FCData>,
    usage: StorageUsage,
) -> bool {
    match (nft_data, ft_data, fc_data) {
        (Some(nft), _, _) => {
            &&& drop_type matches DropType::NonFungibleToken(data)
            &&& data.sender_id == nft.sender_id
            &&& data.contract_id == nft.contract_id
            &&& data.longest_token_id == nft.longest_token_id
            &&& data.storage_for_longest == usage.longest_token_bytes
            &&& data.token_ids@ == Seq::<String>::empty()
        },
        (None, Some(ft), _) => {
            &&& drop_type matches DropType::FungibleToken(data)
            &&& data.sender_id == ft.sender_id
            &&& data.contract_id == ft.contract_id
            &&& data.balance_per_use == ft.balance_per_use
            &&& data.ft_storage is None
        },
        (None, None, Some(fc)) => drop_type == DropType::FunctionCall(fc),
        (None, None, None) => drop_type is Simple,
    }
}

impl Keypom {
    /// The tables are well-formed, every drop is, every funder of a drop has a balance,
    /// the allowance of every drop's tokens can be written down, the index and the
    /// drops' key tables agree on who owns which key, the fees earned cover what
    /// pending drops owe back of them, and `funds_held` is the sum of what the engine
    /// answers for.
    pub open spec fn wf(&self) -> bool {
        &&& self.platform.wf()
        &&& self.fees_per_user.wf()
        &&& self.user_balances.wf()
        &&& self.drop_id_for_pk.wf()
        &&& self.next_drop_id == self.drop_for_id.len()
        &&& forall|i: int| 0 <= i < self.drop_for_id.len() ==> (#[trigger] self.drop_for_id[i]).wf()
        &&& forall|i: int|
            0 <= i < self.drop_for_id.len() ==> self.user_balances@.contains_key(
                (#[trigger] self.drop_for_id[i]).owner_id@,
            )
        &&& forall|i: int|
            0 <= i < self.drop_for_id.len() ==> self.platform.allowance_for(
                (#[trigger] self.drop_for_id[i]).required_gas,
                self.drop_for_id[i].uses_per_key(),
            ) <= u128::MAX
        &&& forall|i: int, k: Seq<u8>|
            0 <= i < self.drop_for_id.len() && #[trigger] self.drop_for_id[i].pks@.contains_key(k)
                ==> self.drop_id_for_pk@.contains_key(k) && self.drop_id_for_pk@[k] == i
        &&& forall|k: Seq<u8>| #[trigger]
            self.drop_id_for_pk@.contains_key(k) ==> self.drop_id_for_pk@[k]
                < self.drop_for_id.len() && self.drop_for_id[self.drop_id_for_pk@[k] as int].pks@.contains_key(
            k)
        &&& pending_fees_total(self.drop_for_id@) <= self.fees_collected
        &&& self.funds_held == self.user_balances.total() + held_total(self.drop_for_id@)
            + self.fees_collected
    }

    /// A token for the key exists or is being issued: the key belongs to a funded drop.
    pub open spec fn redeemable(&self, key: Seq<u8>) -> bool {
        &&& self.drop_id_for_pk@.contains_key(key)
        &&& self.drop_id_for_pk@[key] < self.drop_for_id.len()
        &&& self.drop_for_id[self.drop_id_for_pk@[key] as int].status is Funded
    }

    /// The funder's balance, or 0 where they have none.
    pub open spec fn balance_of(&self, account: Seq<char>) -> nat {
        self.user_balances.held_by(account)
    }

    /// Everything but the balances, the held funds and their sum is as in `pre`.
    pub open spec fn same_drops_and_fees(&self, pre: Keypom) -> bool {
        &&& self.platform == pre.platform
        &&& self.default_fees == pre.default_fees
        &&& self.fees_per_user == pre.fees_per_user
        &&& self.fees_collected == pre.fees_collected
        &&& self.drop_for_id == pre.drop_for_id
        &&& self.drop_id_for_pk == pre.drop_id_for_pk
        &&& self.next_drop_id == pre.next_drop_id
    }

    /// An engine without funders and drops.
    pub fn new(platform: Platform, default_fees: FeeSchedule) -> (result: Result<
        Keypom,
        AdmissionError,
    >)
        ensures
            result is Ok <==> platform.wf(),
            result matches Err(e) ==> e == AdmissionError::InvalidConfig,
            result matches Ok(engine) ==> {
                &&& engine.wf()
                &&& engine.platform == platform
                &&& engine.default_fees == default_fees
                &&& engine.fees_per_user@ == Map::<Seq<char>, FeeSchedule>::empty()
                &&& engine.user_balances@ == Map::<Seq<char>, u128>::empty()
                &&& engine.fees_collected == 0
                &&& engine.drop_for_id@ == Seq::<Drop>::empty()
                &&& engine.drop_id_for_pk@ == Map::<Seq<u8>, DropId>::empty()
                &&& engine.next_drop_id == 0
                &&& engine.funds_held == 0
            },
    {
        if platform.fc_gas_offset > platform.wallet_gas {
            return Err(AdmissionError::InvalidConfig);
        }
        let engine = Keypom {
            platform,
            default_fees,
            fees_per_user: FeeTable::new(),
            user_balances: BalanceLedger::new(),
            fees_collected: 0,
            drop_for_id: Vec::new(),
            drop_id_for_pk: KeyIndex::new(),
            next_drop_id: 0,
            funds_held: 0,
        };
        assert(held_amounts(engine.drop_for_id@) =~= Seq::<u128>::empty());
        assert(pending_fee_amounts(engine.drop_for_id@) =~= Seq::<u128>::empty());
        Ok(engine)
    }

    /// Pays `amount` into a funder's balance, creating the balance where there is none.
    /// Returns the new balance. Turned down, with the state as it was, where the engine
    /// would then answer for more than any amount can say.
    pub fn add_to_balance(&mut self, account: &AccountId, amount: u128) -> (result: Result<
        u128,
        AdmissionError,
    >)
        requires
            old(self).wf(),
        ensures
            final(self).wf(),
            result is Ok <==> old(self).funds_held + amount <= u128::MAX,
            match result {
                Ok(balance) => {
                    &&& balance == old(self).balance_of(account@) + amount
                    &&& final(self).user_balances@ == old(self).user_balances@.insert(
                        account@,
                        balance,
                    )
                    &&& final(self).funds_held == old(self).funds_held + amount
                    &&& final(self).same_drops_and_fees(*old(self))
                },
                Err(e) => e == AdmissionError::CapacityExceeded && *final(self) == *old(self),
            },
    {
        let funds = match self.funds_held.checked_add(amount) {
            Some(f) => f,
            None => {
                return Err(AdmissionError::CapacityExceeded);
            },
        };
        proof {
            self.user_balances.lemma_balance_within_total(account@);
        }
        let before = match self.user_balances.get(account) {
            Some(b) => b,
            None => 0,
        };
        let balance = before + amount;
        self.user_balances.set(account, balance);
        self.funds_held = funds;
        Ok(balance)
    }

    /// Agrees a fee schedule with a funder, in place of the default one.
    pub fn set_fees(&mut self, account: &AccountId, fees: FeeSchedule)
        requires
            old(self).wf(),
        ensures
            final(self).wf(),
            final(self).fees_per_user@ == old(self).fees_per_user@.insert(account@, fees),
            final(self).platform == old(self).platform,
            final(self).default_fees == old(self).default_fees,
            final(self).user_balances == old(self).user_balances,
            final(self).fees_collected == old(self).fees_collected,
            final(self).drop_for_id == old(self).drop_for_id,
            final(self).drop_id_for_pk == old(self).drop_id_for_pk,
            final(self).next_drop_id == old(self).next_drop_id,
            final(self).funds_held == old(self).funds_held,
    {
        self.fees_per_user.set(account, fees);
    }

    /// A funder's balance, if they have one.
    pub fn balance(&self, account: &AccountId) -> (balance: Option<u128>)
        requires
            self.wf(),
        ensures
            balance == (if self.user_balances@.contains_key(account@) {
                Some(self.user_balances@[account@])
            } else {
                None
            }),
    {
        self.user_balances.get(account)
    }

    /// The drop that owns a key, if any does.
    pub fn drop_id_of(&self, key: &PublicKey) -> (owner: Option<DropId>)
        requires
            self.wf(),
        ensures
            owner == (if self.drop_id_for_pk@.contains_key(key@) {
                Some(self.drop_id_for_pk@[key@])
            } else {
                None
            }),
    {
        self.drop_id_for_pk.get(key)
    }

    /// The drop with the given id, if there is one.
    pub fn get_drop(&self, drop_id: DropId) -> (drop: Option<&Drop>)
        ensures
            drop == (if drop_id < self.drop_for_id.len() {
                Some(&self.drop_for_id[drop_id as int])
            } else {
                None
            }),
    {
        if drop_id < self.drop_for_id.len() as u128 {
            Some(&self.drop_for_id[drop_id as usize])
        } else {
            None
        }
    }

    /// The usage state of a key, if a drop owns it.
    pub fn key_info(&self, key: &PublicKey) -> (info: Option<KeyInfo>)
        requires
            self.wf(),
        ensures
            info == (if self.drop_id_for_pk@.contains_key(key@) {
                Some(self.drop_for_id[self.drop_id_for_pk@[key@] as int].pks@[key@])
            } else {
                None
            }),
    {
        match self.drop_id_for_pk.get(key) {
            Some(drop_id) => self.drop_for_id[drop_id as usize].pks.get(key),
            None => None,
        }
    }

    /// Whether a token for the key exists or is being issued.
    pub fn is_redeemable(&self, key: &PublicKey) -> (yes: bool)
        requires
            self.wf(),
        ensures
            yes == self.redeemable(key@),
    {
        match self.drop_id_for_pk.get(key) {
            Some(drop_id) => match self.drop_for_id[drop_id as usize].status {
                DropStatus::Funded => true,
                _ => false,
            },
            None => false,
        }
    }
}

} // verus!
