//! The drop record and what holds of a sequence of drops.

use vstd::prelude::*;
use crate::assoc::{sum_of, lemma_sum_push, lemma_sum_update, lemma_sum_bounds};
use crate::keys::KeyTable;
use crate::payload::{deposits_per_key, methods_fit, DropType};
use crate::types::{uses_per_key_of, AccountId, DropConfig, DropMetadata, Gas};

verus! {

/// Where a drop stands between the request and usable tokens.
#[derive(Clone, Copy, Debug, PartialEq, Eq, Structural)]
pub enum DropStatus {
    /// The funder was charged and the registry was asked; no token exists yet.
    /// `fees` is the part of the charge that was booked as fees, `held` the rest of
    /// it; both are owed back to the funder if the drop falls through.
    Pending { held: u128, fees: u128 },
    /// The deposit is settled and the tokens were issued.
    Funded,
    /// The drop fell through; it never gets tokens.
    Failed,
}

/// One funding unit: a batch of keys with what their redemption sets off.
#[derive(Clone, Debug, PartialEq, Eq)]
pub struct Drop {
    /// The funder.
    pub owner_id: AccountId,
    /// The keys of the drop with their usage state.
    pub pks: KeyTable,
    /// Value that each redemption hands out.
    pub deposit_per_use: u128,
    /// Redemptions that the drop is funded for.
    pub registered_uses: u64,
    /// Compute budget attached to each token.
    pub required_gas: Gas,
    /// What a redemption sets off.
    pub drop_type: DropType,
    /// Overrides that apply to every key.
    pub config: Option<DropConfig>,
    /// The funder's own notes.
    pub metadata: Option<DropMetadata>,
    /// The sequence number that the next key gets.
    pub next_key_id: u64,
    /// Whether the drop's tokens exist.
    pub status: DropStatus,
}

impl Drop {
    /// Redemptions per key.
    pub open spec fn uses_per_key(&self) -> u64 {
        uses_per_key_of(self.config)
    }

    /// What is held back for the funder while the drop is pending.
    pub open spec fn held(&self) -> u128 {
        match self.status {
            DropStatus::Pending { held, fees } => held,
            _ => 0,
        }
    }

    /// The fees that are owed back if the drop falls through while it is pending.
    pub open spec fn pending_fees(&self) -> u128 {
        match self.status {
            DropStatus::Pending { held, fees } => fees,
            _ => 0,
        }
    }

    /// The keys are listed once each and carry distinct sequence numbers below the next
    /// one to give out; invocation lists fit the uses per key and attach an amount that
    /// can be written down; and only a fungible-token drop whose registration cost is
    /// unknown is pending.
    pub open spec fn wf(&self) -> bool {
        &&& self.pks.wf()
        &&& self.pks.ids_below(self.next_key_id)
        &&& forall|a: int, b: int|
            0 <= a < self.pks.infos.len() && 0 <= b < self.pks.infos.len() && a != b
                ==> self.pks.infos[a].key_id != self.pks.infos[b].key_id
        &&& self.drop_type matches DropType::FunctionCall(data) ==> methods_fit(
            data.methods@,
            self.uses_per_key(),
        ) && deposits_per_key(data.methods@, self.uses_per_key()) <= u128::MAX
        &&& self.status is Pending ==> self.drop_type is FungibleToken
        &&& self.drop_type matches DropType::FungibleToken(data) ==> (data.ft_storage is Some
            <==> self.status is Funded)
    }
}

/// What each drop of a sequence holds back.
pub open spec fn held_amounts(drops: Seq<Drop>) -> Seq<u128> {
    Seq::new(drops.len(), |i: int| drops[i].held())
}

/// What the drops of a sequence hold back together.
pub open spec fn held_total(drops: Seq<Drop>) -> nat {
    sum_of(held_amounts(drops))
}

/// The fees that each drop of a sequence owes back if it falls through.
pub open spec fn pending_fee_amounts(drops: Seq<Drop>) -> Seq<u128> {
    Seq::new(drops.len(), |i: int| drops[i].pending_fees())
}

/// The fees that the pending drops of a sequence owe back together if they fall through.
pub open spec fn pending_fees_total(drops: Seq<Drop>) -> nat {
    sum_of(pending_fee_amounts(drops))
}

/// A new drop adds what it holds back and the fees it owes back.
pub proof fn lemma_held_push(drops: Seq<Drop>, drop: Drop)
    ensures
        held_total(drops.push(drop)) == held_total(drops) + drop.held(),
        pending_fees_total(drops.push(drop)) == pending_fees_total(drops) + drop.pending_fees(),
{
    assert(held_amounts(drops.push(drop)) =~= held_amounts(drops).push(drop.held()));
    lemma_sum_push(held_amounts(drops), drop.held());
    assert(pending_fee_amounts(drops.push(drop)) =~= pending_fee_amounts(drops).push(
        drop.pending_fees(),
    ));
    lemma_sum_push(pending_fee_amounts(drops), drop.pending_fees());
}

/// A changed drop moves the totals by the difference of what it holds back and owes back.
pub proof fn lemma_held_update(drops: Seq<Drop>, i: int, drop: Drop)
    requires
        0 <= i < drops.len(),
    ensures
        held_total(drops.update(i, drop)) == held_total(drops) - drops[i].held() + drop.held(),
        pending_fees_total(drops.update(i, drop)) == pending_fees_total(drops)
            - drops[i].pending_fees() + drop.pending_fees(),
{
    assert(held_amounts(drops.update(i, drop)) =~= held_amounts(drops).update(i, drop.held()));
    lemma_sum_update(held_amounts(drops), i, drop.held());
    assert(pending_fee_amounts(drops.update(i, drop)) =~= pending_fee_amounts(drops).update(
        i,
        drop.pending_fees(),
    ));
    lemma_sum_update(pending_fee_amounts(drops), i, drop.pending_fees());
}

/// No drop holds back or owes back more than all drops together.
pub proof fn lemma_held_bounds(drops: Seq<Drop>, i: int)
    requires
        0 <= i < drops.len(),
    ensures
        drops[i].held() <= held_total(drops),
        drops[i].pending_fees() <= pending_fees_total(drops),
{
    lemma_sum_bounds(held_amounts(drops), i);
    lemma_sum_bounds(pending_fee_amounts(drops), i);
}

} // verus!
