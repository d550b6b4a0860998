//! Fee schedules: what a funder pays per drop and per key, on top of costs.

use vstd::prelude::*;
use crate::assoc::{assoc_map, lemma_assoc_at, lemma_assoc_absent, lemma_assoc_push,
    lemma_assoc_update};
use crate::ledger::{account_views, find_account};

verus! {

/// The two fees of an admission.
#[derive(Clone, Copy, Debug, PartialEq, Eq, Structural)]
pub struct FeeSchedule {
    /// Charged once when a drop is created.
    pub drop_fee: u128,
    /// Charged for every key that is admitted.
    pub key_fee: u128,
}

/// Fee schedules agreed with single funders.
#[derive(Clone, Debug, PartialEq, Eq)]
pub struct FeeTable {
    pub ids: Vec<String>,
    pub schedules: Vec<FeeSchedule>,
}

impl View for FeeTable {
    type V = Map<Seq<char>, FeeSchedule>;

    open spec fn view(&self) -> Map<Seq<char>, FeeSchedule> {
        assoc_map(account_views(self.ids@), self.schedules@)
    }
}

/// The schedule that applies to a funder: their own where they have one, else the default.
pub open spec fn applicable_fees(
    custom: Map<Seq<char>, FeeSchedule>,
    default_fees: FeeSchedule,
    account: Seq<char>,
) -> FeeSchedule {
    if custom.contains_key(account) {
        custom[account]
    } else {
        default_fees
    }
}

impl FeeTable {
    /// Every funder is listed once, with one schedule.
    pub open spec fn wf(&self) -> bool {
        &&& self.ids.len() == self.schedules.len()
        &&& account_views(self.ids@).no_duplicates()
    }

    /// A table without entries.
    pub fn new() -> (table: FeeTable)
        ensures
            table.wf(),
            table@ == Map::<Seq<char>, FeeSchedule>::empty(),
    {
        let table = FeeTable { ids: Vec::new(), schedules: Vec::new() };
        assert(table@ =~= Map::<Seq<char>, FeeSchedule>::empty());
        table
    }

    /// The schedule that applies to a funder.
    pub fn fees_for(&self, account: &String, default_fees: FeeSchedule) -> (fees: FeeSchedule)
        requires
            self.wf(),
        ensures
            fees == applicable_fees(self@, default_fees, account@),
    {
        match find_account(&self.ids, account) {
            Some(i) => {
                proof {
                    lemma_assoc_at(account_views(self.ids@), self.schedules@, i as int);
                }
                self.schedules[i]
            },
            None => {
                proof {
                    lemma_assoc_absent(account_views(self.ids@), self.schedules@, account@);
                }
                default_fees
            },
        }
    }

    /// Agrees a schedule with a funder, replacing an earlier one.
    pub fn set(&mut self, account: &String, fees: FeeSchedule)
        requires
            old(self).wf(),
        ensures
            final(self).wf(),
            final(self)@ == old(self)@.insert(account@, fees),
    {
        let ghost names = account_views(self.ids@);
        match find_account(&self.ids, account) {
            Some(i) => {
                proof {
                    lemma_assoc_update(names, self.schedules@, i as int, fees);
                }
                self.schedules[i] = fees;
            },
            None => {
                proof {
                    lemma_assoc_push(names, self.schedules@, account@, fees);
                }
                self.ids.push(account.clone());
                self.schedules.push(fees);
                assert(account_views(self.ids@) =~= names.push(account@));
            },
        }
    }
}

} // verus!
