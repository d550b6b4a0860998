//! Payloads: what a redemption sets off, and what a funder says of it when a drop is created.

use vstd::prelude::*;
use vstd::arithmetic::overflow::CheckedU128;
use crate::types::{AccountId, AdmissionError, Gas};

verus! {

/// One function invocation that a redemption makes.
#[derive(Clone, Debug, PartialEq, Eq)]
pub struct MethodData {
    /// The contract that is called.
    pub receiver_id: AccountId,
    /// The method that is called on it.
    pub method_name: String,
    /// The arguments, as text.
    pub args: String,
    /// The value attached to the call.
    pub attached_deposit: u128,
}

/// Settings that hold for every invocation of a function-call drop.
#[derive(Clone, Copy, Debug, PartialEq, Eq, Structural)]
pub struct FCConfig {
    /// Compute budget to attach to each invocation, in place of the default.
    pub attached_gas: Option<Gas>,
}

/// The payload of a function-call drop: one list of invocations for every use of a key,
/// or a single list that every use shares. A use may have no invocations at all.
#[derive(Clone, Debug, PartialEq, Eq)]
pub struct FCData {
    pub methods: Vec<Option<Vec<MethodData>>>,
    pub config: Option<FCConfig>,
}

/// What a funder says of a non-fungible-token drop.
#[derive(Clone, Debug, PartialEq, Eq)]
pub struct NFTDataConfig {
    /// Who will send the tokens.
    pub sender_id: AccountId,
    /// The contract that holds the tokens.
    pub contract_id: AccountId,
    /// The longest token identifier that will ever be sent.
    pub longest_token_id: String,
}

/// The payload of a non-fungible-token drop.
#[derive(Clone, Debug, PartialEq, Eq)]
pub struct NFTData {
    pub sender_id: AccountId,
    pub contract_id: AccountId,
    pub longest_token_id: String,
    /// Bytes of storage that one token identifier of the longest length takes.
    pub storage_for_longest: u128,
    /// The tokens that were sent and not yet handed out.
    pub token_ids: Vec<String>,
}

/// What a funder says of a fungible-token drop.
#[derive(Clone, Debug, PartialEq, Eq)]
pub struct FTDataConfig {
    /// Who will send the tokens.
    pub sender_id: AccountId,
    /// The token contract.
    pub contract_id: AccountId,
    /// Tokens that each redemption hands out.
    pub balance_per_use: u128,
}

/// The payload of a fungible-token drop.
#[derive(Clone, Debug, PartialEq, Eq)]
pub struct FTData {
    pub contract_id: AccountId,
    pub sender_id: AccountId,
    pub balance_per_use: u128,
    /// What the token contract charges to register one holder; unknown until it has answered.
    pub ft_storage: Option<u128>,
}

/// What a redemption of a drop's key sets off.
#[derive(Clone, Debug, PartialEq, Eq)]
pub enum DropType {
    Simple,
    NonFungibleToken(NFTData),
    FungibleToken(FTData),
    FunctionCall(FCData),
}

/// A token registry's answer: what it charges to register a holder.
#[derive(Clone, Copy, Debug, PartialEq, Eq, Structural)]
pub struct StorageBalanceBounds {
    pub min: u128,
    pub max: Option<u128>,
}

/// What one list of invocations and what all uses of a key attach, and how many uses
/// make no invocation.
#[derive(Clone, Copy, Debug, PartialEq, Eq, Structural)]
pub struct MethodTally {
    /// The value attached over all uses of one key; `None` where it exceeds every amount.
    pub deposits: Option<u128>,
    /// The uses of one key that have no invocations and carry no deposit.
    pub none_count: u64,
}

/// The value attached by a list of invocations.
pub open spec fn attached_total(calls: Seq<MethodData>) -> nat
    decreases calls.len(),
{
    if calls.len() == 0 {
        0
    } else {
        attached_total(calls.drop_last()) + calls.last().attached_deposit as nat
    }
}

/// The value attached by one use: that of its invocations, nothing where it has none.
pub open spec fn use_total(entry: Option<Vec<MethodData>>) -> nat {
    match entry {
        Some(calls) => attached_total(calls@),
        None => 0,
    }
}

/// The value attached by all the listed uses together.
pub open spec fn listed_total(methods: Seq<Option<Vec<MethodData>>>) -> nat
    decreases methods.len(),
{
    if methods.len() == 0 {
        0
    } else {
        listed_total(methods.drop_last()) + use_total(methods.last())
    }
}

/// How many of the listed uses have no invocations.
pub open spec fn listed_none(methods: Seq<Option<Vec<MethodData>>>) -> nat
    decreases methods.len(),
{
    if methods.len() == 0 {
        0
    } else {
        listed_none(methods.drop_last()) + if methods.last() is None {
            1nat
        } else {
            0nat
        }
    }
}

/// One list for each use of a key.
pub open spec fn per_use_form(methods: Seq<Option<Vec<MethodData>>>, uses: u64) -> bool {
    methods.len() == uses
}

/// A single list that all uses of a key share; it must make invocations.
pub open spec fn shared_form(methods: Seq<Option<Vec<MethodData>>>, uses: u64) -> bool {
    &&& methods.len() == 1
    &&& uses != 1
    &&& methods[0] is Some
}

/// The lists fit the number of uses per key.
pub open spec fn methods_fit(methods: Seq<Option<Vec<MethodData>>>, uses: u64) -> bool {
    per_use_form(methods, uses) || shared_form(methods, uses)
}

/// The value that all uses of one key attach.
pub open spec fn deposits_per_key(methods: Seq<Option<Vec<MethodData>>>, uses: u64) -> nat {
    if per_use_form(methods, uses) {
        listed_total(methods)
    } else {
        uses as nat * use_total(methods[0])
    }
}

/// The uses of one key that have no invocations.
pub open spec fn none_per_key(methods: Seq<Option<Vec<MethodData>>>, uses: u64) -> nat {
    if per_use_form(methods, uses) {
        listed_none(methods)
    } else {
        0
    }
}

/// No more uses are without invocations than there are uses listed.
pub proof fn lemma_none_within_len(methods: Seq<Option<Vec<MethodData>>>)
    ensures
        listed_none(methods) <= methods.len(),
    decreases methods.len(),
{
    if methods.len() > 0 {
        lemma_none_within_len(methods.drop_last());
    }
}

/// Where the lists fit, no more uses are without invocations than a key has uses.
pub proof fn lemma_none_within_uses(methods: Seq<Option<Vec<MethodData>>>, uses: u64)
    requires
        methods_fit(methods, uses),
    ensures
        none_per_key(methods, uses) <= uses,
{
    lemma_none_within_len(methods);
}

fn sum_attached(calls: &Vec<MethodData>) -> (sum: CheckedU128)
    ensures
        sum@ == attached_total(calls@),
{
    let mut sum = CheckedU128::new(0);
    let mut i: usize = 0;
    while i < calls.len()
        invariant
            i <= calls.len(),
            sum@ == attached_total(calls@.subrange(0, i as int)),
        decreases calls.len() - i,
    {
        assert(calls@.subrange(0, i + 1).drop_last() =~= calls@.subrange(0, i as int));
        sum = sum.add_value(calls[i].attached_deposit);
        i += 1;
    }
    assert(calls@.subrange(0, calls.len() as int) =~= calls@);
    sum
}

impl FCData {
    /// Checks the lists of invocations against the number of uses per key, and adds up
    /// what one key attaches over all its uses.
    pub fn tally(&self, uses: u64) -> (result: Result<MethodTally, AdmissionError>)
        ensures
            result is Ok <==> methods_fit(self.methods@, uses),
            result matches Err(e) ==> e == AdmissionError::InvalidConfig,
            result matches Ok(t) ==> {
                &&& t.none_count == none_per_key(self.methods@, uses)
                &&& t.deposits matches Some(v) ==> v == deposits_per_key(self.methods@, uses)
                &&& t.deposits is None ==> deposits_per_key(self.methods@, uses) > u128::MAX
            },
    {
        let n = self.methods.len();
        if n as u128 == uses as u128 {
            let mut sum = CheckedU128::new(0);
            let mut none_count: u64 = 0;
            let mut i: usize = 0;
            while i < n
                invariant
                    i <= n,
                    n == self.methods.len(),
                    n == uses,
                    sum@ == listed_total(self.methods@.subrange(0, i as int)),
                    none_count == listed_none(self.methods@.subrange(0, i as int)),
                    none_count <= i,
                decreases n - i,
            {
                assert(self.methods@.subrange(0, i + 1).drop_last() =~= self.methods@.subrange(
                    0,
                    i as int,
                ));
                match &self.methods[i] {
                    Some(calls) => {
                        let part = sum_attached(calls);
                        sum = sum.add_checked(&part);
                    },
                    None => {
                        none_count += 1;
                    },
                }
                i += 1;
            }
            assert(self.methods@.subrange(0, n as int) =~= self.methods@);
            Ok(MethodTally { deposits: sum.to_option(), none_count })
        } else if n == 1 && uses != 1 {
            match &self.methods[0] {
                Some(calls) => {
                    let once = sum_attached(calls);
                    let all = CheckedU128::new(uses as u128).mul_checked(&once);
                    Ok(MethodTally { deposits: all.to_option(), none_count: 0 })
                },
                None => Err(AdmissionError::InvalidConfig),
            }
        } else {
            Err(AdmissionError::InvalidConfig)
        }
    }

    /// The compute budget that the payload asks for, if it sets one.
    pub fn attached_gas(&self) -> (gas: Option<Gas>)
        ensures
            gas == gas_override(Some(*self)),
    {
        match self.config {
            Some(c) => c.attached_gas,
            None => None,
        }
    }
}

/// The compute budget that an optional function-call payload asks for.
pub open spec fn gas_override(fc_data: Option<FCData>) -> Option<Gas> {
    match fc_data {
        Some(data) => match data.config {
            Some(c) => c.attached_gas,
            None => None,
        },
        None => None,
    }
}

} // verus!
