//! Checking a state at run time: whether a value that came from outside, such as
//! one read back from storage, is well-formed.

use vstd::prelude::*;
use vstd::arithmetic::overflow::CheckedU128;
use crate::assoc::{lemma_assoc_at, sum_of};
use crate::engine::Keypom;
use crate::fees::FeeTable;
use crate::keys::{batch_fresh_against, key_views, KeyIndex, KeyTable};
use crate::ledger::{account_views, BalanceLedger};
use crate::payload::DropType;
use crate::store::{held_amounts, held_total, pending_fee_amounts, pending_fees_total, Drop,
    DropStatus};
use crate::types::{uses_per_key, KeyInfo};

verus! {

/// Whether no account occurs twice in the list.
pub fn accounts_distinct(ids: &Vec<String>) -> (ok: bool)
    ensures
        ok == account_views(ids@).no_duplicates(),
{
    let mut j: usize = 0;
    while j < ids.len()
        invariant
            j <= ids.len(),
            forall|a: int, b: int| 0 <= a < b < j ==> ids[a]@ != ids[b]@,
        decreases ids.len() - j,
    {
        let mut a: usize = 0;
        while a < j
            invariant
                a <= j,
                j < ids.len(),
                forall|b: int| 0 <= b < a ==> ids[b]@ != ids[j as int]@,
            decreases j - a,
        {
            if ids[a] == ids[j] {
                assert(account_views(ids@)[a as int] == account_views(ids@)[j as int]);
                return false;
            }
            a += 1;
        }
        j += 1;
    }
    assert forall|a: int, b: int| 0 <= a < ids.len() && 0 <= b < ids.len() && a != b implies account_views(
        ids@,
    )[a] != account_views(ids@)[b] by {
        if a < b {
            assert(ids[a]@ != ids[b]@);
        } else {
            assert(ids[b]@ != ids[a]@);
        }
    }
    true
}

/// Whether no key occurs twice in the list.
pub fn keys_distinct(keys: &Vec<Vec<u8>>) -> (ok: bool)
    ensures
        ok == key_views(keys@).no_duplicates(),
{
    let none: Vec<Vec<u8>> = Vec::new();
    batch_fresh_against(&none, keys)
}

/// Whether no sequence number occurs twice in the list.
fn key_ids_distinct(infos: &Vec<KeyInfo>) -> (ok: bool)
    ensures
        ok == (forall|a: int, b: int|
            0 <= a < infos.len() && 0 <= b < infos.len() && a != b ==> infos[a].key_id
                != infos[b].key_id),
{
    let mut j: usize = 0;
    while j < infos.len()
        invariant
            j <= infos.len(),
            forall|a: int, b: int| 0 <= a < b < j ==> infos[a].key_id != infos[b].key_id,
        decreases infos.len() - j,
    {
        let mut a: usize = 0;
        while a < j
            invariant
                a <= j,
                j < infos.len(),
                forall|b: int| 0 <= b < a ==> infos[b].key_id != infos[j as int].key_id,
            decreases j - a,
        {
            if infos[a].key_id == infos[j].key_id {
                return false;
            }
            a += 1;
        }
        j += 1;
    }
    assert forall|a: int, b: int|
        0 <= a < infos.len() && 0 <= b < infos.len() && a != b implies infos[a].key_id
        != infos[b].key_id by {
        if a < b {
            assert(infos[a].key_id != infos[b].key_id);
        } else {
            assert(infos[b].key_id != infos[a].key_id);
        }
    }
    true
}

/// The sum of a list of amounts.
fn sum_amounts(amounts: &Vec<u128>) -> (sum: CheckedU128)
    ensures
        sum@ == sum_of(amounts@),
{
    let mut sum = CheckedU128::new(0);
    let mut i: usize = 0;
    while i < amounts.len()
        invariant
            i <= amounts.len(),
            sum@ == sum_of(amounts@.subrange(0, i as int)),
        decreases amounts.len() - i,
    {
        assert(amounts@.subrange(0, i + 1).drop_last() =~= amounts@.subrange(0, i as int));
        sum = sum.add_value(amounts[i]);
        i += 1;
    }
    assert(amounts@.subrange(0, amounts.len() as int) =~= amounts@);
    sum
}

impl BalanceLedger {
    /// Whether the ledger is well-formed.
    pub fn is_well_formed(&self) -> (ok: bool)
        ensures
            ok == self.wf(),
    {
        self.ids.len() == self.balances.len() && accounts_distinct(&self.ids)
    }
}

impl FeeTable {
    /// Whether the table is well-formed.
    pub fn is_well_formed(&self) -> (ok: bool)
        ensures
            ok == self.wf(),
    {
        self.ids.len() == self.schedules.len() && accounts_distinct(&self.ids)
    }
}

impl KeyTable {
    /// Whether the table is well-formed.
    pub fn is_well_formed(&self) -> (ok: bool)
        ensures
            ok == self.wf(),
    {
        self.keys.len() == self.infos.len() && keys_distinct(&self.keys)
    }
}

impl KeyIndex {
    /// Whether the index is well-formed.
    pub fn is_well_formed(&self) -> (ok: bool)
        ensures
            ok == self.wf(),
    {
        self.keys.len() == self.drop_ids.len() && keys_distinct(&self.keys)
    }
}

impl Drop {
    /// Whether the drop is well-formed.
    pub fn is_well_formed(&self) -> (ok: bool)
        ensures
            ok == self.wf(),
    {
        if !self.pks.is_well_formed() {
            return false;
        }
        let mut j: usize = 0;
        while j < self.pks.infos.len()
            invariant
                j <= self.pks.infos.len(),
                forall|a: int| 0 <= a < j ==> (#[trigger] self.pks.infos[a]).key_id < self.next_key_id,
            decreases self.pks.infos.len() - j,
        {
            if self.pks.infos[j].key_id >= self.next_key_id {
                return false;
            }
            j += 1;
        }
        if !key_ids_distinct(&self.pks.infos) {
            return false;
        }
        let pending = match self.status {
            DropStatus::Pending { held, fees } => true,
            _ => false,
        };
        let funded = match self.status {
            DropStatus::Funded => true,
            _ => false,
        };
        match &self.drop_type {
            DropType::FunctionCall(data) => {
                if pending {
                    return false;
                }
                match data.tally(uses_per_key(&self.config)) {
                    Ok(tally) => tally.deposits.is_some(),
                    Err(_) => false,
                }
            },
            DropType::FungibleToken(data) => data.ft_storage.is_some() == funded,
            _ => !pending,
        }
    }
}

impl Keypom {
    /// Whether every drop is well-formed, has a funder with a balance, and has tokens
    /// whose allowance can be written down.
    fn drops_well_formed(&self) -> (ok: bool)
        requires
            self.user_balances.wf(),
        ensures
            ok == ({
                &&& forall|i: int|
                    0 <= i < self.drop_for_id.len() ==> (#[trigger] self.drop_for_id[i]).wf()
                &&& forall|i: int|
                    0 <= i < self.drop_for_id.len() ==> self.user_balances@.contains_key(
                        (#[trigger] self.drop_for_id[i]).owner_id@,
                    )
                &&& forall|i: int|
                    0 <= i < self.drop_for_id.len() ==> self.platform.allowance_for(
                        (#[trigger] self.drop_for_id[i]).required_gas,
                        self.drop_for_id[i].uses_per_key(),
                    ) <= u128::MAX
            }),
    {
        let mut i: usize = 0;
        while i < self.drop_for_id.len()
            invariant
                i <= self.drop_for_id.len(),
                self.user_balances.wf(),
                forall|a: int| 0 <= a < i ==> (#[trigger] self.drop_for_id[a]).wf(),
                forall|a: int|
                    0 <= a < i ==> self.user_balances@.contains_key(
                        (#[trigger] self.drop_for_id[a]).owner_id@,
                    ),
                forall|a: int|
                    0 <= a < i ==> self.platform.allowance_for(
                        (#[trigger] self.drop_for_id[a]).required_gas,
                        self.drop_for_id[a].uses_per_key(),
                    ) <= u128::MAX,
            decreases self.drop_for_id.len() - i,
        {
            let drop = &self.drop_for_id[i];
            if !drop.is_well_formed() {
                return false;
            }
            if self.user_balances.get(&drop.owner_id).is_none() {
                return false;
            }
            if self.platform.allowance_per_key(
                drop.required_gas,
                uses_per_key(&drop.config),
            ).is_none() {
                return false;
            }
            i += 1;
        }
        true
    }

    /// Whether every key of every drop is indexed under that drop.
    fn tables_are_indexed(&self) -> (ok: bool)
        requires
            self.drop_id_for_pk.wf(),
            forall|i: int| 0 <= i < self.drop_for_id.len() ==> (#[trigger] self.drop_for_id[i]).wf(),
        ensures
            ok == (forall|i: int, k: Seq<u8>|
                0 <= i < self.drop_for_id.len() && #[trigger] self.drop_for_id[i].pks@.contains_key(
                    k,
                ) ==> self.drop_id_for_pk@.contains_key(k) && self.drop_id_for_pk@[k] == i),
    {
        let mut i: usize = 0;
        while i < self.drop_for_id.len()
            invariant
                i <= self.drop_for_id.len(),
                self.drop_id_for_pk.wf(),
                forall|a: int|
                    0 <= a < self.drop_for_id.len() ==> (#[trigger] self.drop_for_id[a]).wf(),
                forall|a: int, k: Seq<u8>|
                    0 <= a < i && #[trigger] self.drop_for_id[a].pks@.contains_key(k)
                        ==> self.drop_id_for_pk@.contains_key(k) && self.drop_id_for_pk@[k] == a,
            decreases self.drop_for_id.len() - i,
        {
            let table = &self.drop_for_id[i].pks;
            let ghost names = key_views(table.keys@);
            assert(self.drop_for_id[i as int].wf());
            let mut j: usize = 0;
            while j < table.keys.len()
                invariant
                    j <= table.keys.len(),
                    i < self.drop_for_id.len(),
                    table == &self.drop_for_id[i as int].pks,
                    names == key_views(table.keys@),
                    table.wf(),
                    self.drop_id_for_pk.wf(),
                    forall|b: int|
                        0 <= b < j ==> self.drop_id_for_pk@.contains_key(#[trigger] names[b])
                            && self.drop_id_for_pk@[names[b]] == i,
                decreases table.keys.len() - j,
            {
                let found = self.drop_id_for_pk.get(&table.keys[j]);
                let indexed = match found {
                    Some(owner) => owner == i as u128,
                    None => false,
                };
                if !indexed {
                    proof {
                        lemma_assoc_at(names, table.infos@, j as int);
                        assert(self.drop_for_id[i as int].pks@.contains_key(names[j as int]));
                    }
                    return false;
                }
                j += 1;
            }
            proof {
                assert forall|k: Seq<u8>| #[trigger]
                    self.drop_for_id[i as int].pks@.contains_key(
                        k,
                    ) implies self.drop_id_for_pk@.contains_key(k) && self.drop_id_for_pk@[k]
                    == i by {
                    let b = names.index_of(k);
                    assert(names[b] == k);
                }
            }
            i += 1;
        }
        true
    }

    /// Whether every indexed key is in the table of the drop it is indexed under.
    fn index_is_backed(&self) -> (ok: bool)
        requires
            self.drop_id_for_pk.wf(),
            forall|i: int| 0 <= i < self.drop_for_id.len() ==> (#[trigger] self.drop_for_id[i]).wf(),
        ensures
            ok == (forall|k: Seq<u8>| #[trigger]
                self.drop_id_for_pk@.contains_key(k) ==> self.drop_id_for_pk@[k]
                    < self.drop_for_id.len() && self.drop_for_id[self.drop_id_for_pk@[k] as int].pks@.contains_key(
                k)),
    {
        let index = &self.drop_id_for_pk;
        let ghost names = key_views(index.keys@);
        let mut e: usize = 0;
        while e < index.keys.len()
            invariant
                e <= index.keys.len(),
                index == &self.drop_id_for_pk,
                names == key_views(index.keys@),
                index.wf(),
                forall|i: int|
                    0 <= i < self.drop_for_id.len() ==> (#[trigger] self.drop_for_id[i]).wf(),
                forall|b: int|
                    0 <= b < e ==> (#[trigger] index.drop_ids[b]) < self.drop_for_id.len()
                        && self.drop_for_id[index.drop_ids[b] as int].pks@.contains_key(names[b]),
            decreases index.keys.len() - e,
        {
            let owner = index.drop_ids[e];
            let backed = if owner < self.drop_for_id.len() as u128 {
                assert(self.drop_for_id[owner as int].wf());
                self.drop_for_id[owner as usize].pks.get(&index.keys[e]).is_some()
            } else {
                false
            };
            if !backed {
                proof {
                    lemma_assoc_at(names, index.drop_ids@, e as int);
                    assert(self.drop_id_for_pk@.contains_key(names[e as int]));
                }
                return false;
            }
            e += 1;
        }
        proof {
            assert forall|k: Seq<u8>| #[trigger]
                self.drop_id_for_pk@.contains_key(k) implies self.drop_id_for_pk@[k]
                < self.drop_for_id.len() && self.drop_for_id[self.drop_id_for_pk@[k] as int].pks@.contains_key(
            k) by {
                let b = names.index_of(k);
                assert(names[b] == k);
                lemma_assoc_at(names, index.drop_ids@, b);
                assert(index.drop_ids[b] < self.drop_for_id.len());
            }
        }
        true
    }

    /// What the drops hold back, and the fees that the pending ones owe back.
    fn sum_drops(&self) -> (sums: (CheckedU128, CheckedU128))
        ensures
            sums.0@ == held_total(self.drop_for_id@),
            sums.1@ == pending_fees_total(self.drop_for_id@),
    {
        let ghost held_all = held_amounts(self.drop_for_id@);
        let ghost fees_all = pending_fee_amounts(self.drop_for_id@);
        let mut held_sum = CheckedU128::new(0);
        let mut fees_sum = CheckedU128::new(0);
        let mut i: usize = 0;
        while i < self.drop_for_id.len()
            invariant
                i <= self.drop_for_id.len(),
                held_all == held_amounts(self.drop_for_id@),
                fees_all == pending_fee_amounts(self.drop_for_id@),
                held_sum@ == sum_of(held_all.subrange(0, i as int)),
                fees_sum@ == sum_of(fees_all.subrange(0, i as int)),
            decreases self.drop_for_id.len() - i,
        {
            assert(held_all.subrange(0, i + 1).drop_last() =~= held_all.subrange(0, i as int));
            assert(fees_all.subrange(0, i + 1).drop_last() =~= fees_all.subrange(0, i as int));
            match self.drop_for_id[i].status {
                DropStatus::Pending { held, fees } => {
                    held_sum = held_sum.add_value(held);
                    fees_sum = fees_sum.add_value(fees);
                },
                _ => {
                    held_sum = held_sum.add_value(0);
                    fees_sum = fees_sum.add_value(0);
                },
            }
            i += 1;
        }
        assert(held_all.subrange(0, self.drop_for_id.len() as int) =~= held_all);
        assert(fees_all.subrange(0, self.drop_for_id.len() as int) =~= fees_all);
        (held_sum, fees_sum)
    }

    /// Whether the state is well-formed. Every entry point asks for a well-formed
    /// state and leaves one behind; a state that was put together elsewhere is to
    /// be checked with this function before it is used.
    pub fn is_well_formed(&self) -> (ok: bool)
        ensures
            ok == self.wf(),
    {
        if self.platform.fc_gas_offset > self.platform.wallet_gas {
            return false;
        }
        if !self.fees_per_user.is_well_formed() || !self.user_balances.is_well_formed()
            || !self.drop_id_for_pk.is_well_formed() {
            return false;
        }
        if self.next_drop_id != self.drop_for_id.len() as u128 {
            return false;
        }
        if !self.drops_well_formed() {
            return false;
        }
        if !self.tables_are_indexed() || !self.index_is_backed() {
            return false;
        }
        let (held, pending_fees) = self.sum_drops();
        let fees_cover = match pending_fees.to_option() {
            Some(owed) => owed <= self.fees_collected,
            None => false,
        };
        if !fees_cover {
            return false;
        }
        let all = sum_amounts(&self.user_balances.balances).add_checked(&held).add_value(
            self.fees_collected,
        );
        match all.to_option() {
            Some(funds) => funds == self.funds_held,
            None => false,
        }
    }
}

} // verus!
