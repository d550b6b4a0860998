//! The balance ledger: what each funder has paid in and not yet spent.

use vstd::prelude::*;
use crate::assoc::{assoc_map, sum_of, lemma_assoc_at, lemma_assoc_absent, lemma_assoc_push,
    lemma_assoc_update, lemma_sum_push, lemma_sum_update, lemma_sum_bounds};

verus! {

/// The account names of a list of identities, as sequences of characters.
pub open spec fn account_views(ids: Seq<String>) -> Seq<Seq<char>> {
    Seq::new(ids.len(), |i: int| ids[i]@)
}

/// Finds the first position of an account in a list of identities.
pub fn find_account(ids: &Vec<String>, account: &String) -> (found: Option<usize>)
    ensures
        match found {
            Some(i) => {
                &&& i < ids.len()
                &&& ids[i as int]@ == account@
                &&& forall|j: int| 0 <= j < i ==> ids[j]@ != account@
            },
            None => forall|i: int| 0 <= i < ids.len() ==> ids[i]@ != account@,
        },
{
    let mut i: usize = 0;
    while i < ids.len()
        invariant
            i <= ids.len(),
            forall|j: int| 0 <= j < i ==> ids[j]@ != account@,
        decreases ids.len() - i,
    {
        if ids[i] == *account {
            return Some(i);
        }
        i += 1;
    }
    None
}

/// Prepaid balances by funder.
#[derive(Clone, Debug, PartialEq, Eq)]
pub struct BalanceLedger {
    pub ids: Vec<String>,
    pub balances: Vec<u128>,
}

impl View for BalanceLedger {
    type V = Map<Seq<char>, u128>;

    open spec fn view(&self) -> Map<Seq<char>, u128> {
        assoc_map(account_views(self.ids@), self.balances@)
    }
}

impl BalanceLedger {
    /// Every account is listed once, with one balance.
    pub open spec fn wf(&self) -> bool {
        &&& self.ids.len() == self.balances.len()
        &&& account_views(self.ids@).no_duplicates()
    }

    /// The sum of all balances.
    pub open spec fn total(&self) -> nat {
        sum_of(self.balances@)
    }

    /// The balance of an account, or 0 where it has no entry.
    pub open spec fn held_by(&self, account: Seq<char>) -> nat {
        if self@.contains_key(account) {
            self@[account] as nat
        } else {
            0
        }
    }

    /// No balance is larger than the sum of all balances.
    pub proof fn lemma_balance_within_total(&self, account: Seq<char>)
        requires
            self.wf(),
        ensures
            self.held_by(account) <= self.total(),
    {
        if self@.contains_key(account) {
            let names = account_views(self.ids@);
            let i = names.index_of(account);
            lemma_assoc_at(names, self.balances@, i);
            lemma_sum_bounds(self.balances@, i);
        }
    }

    /// A ledger without entries.
    pub fn new() -> (ledger: BalanceLedger)
        ensures
            ledger.wf(),
            ledger@ == Map::<Seq<char>, u128>::empty(),
            ledger.total() == 0,
    {
        let ledger = BalanceLedger { ids: Vec::new(), balances: Vec::new() };
        assert(ledger@ =~= Map::<Seq<char>, u128>::empty());
        ledger
    }

    /// The balance of an account, if it has an entry.
    pub fn get(&self, account: &String) -> (balance: Option<u128>)
        requires
            self.wf(),
        ensures
            balance == (if self@.contains_key(account@) {
                Some(self@[account@])
            } else {
                None
            }),
    {
        match find_account(&self.ids, account) {
            Some(i) => {
                proof {
                    lemma_assoc_at(account_views(self.ids@), self.balances@, i as int);
                }
                Some(self.balances[i])
            },
            None => {
                proof {
                    lemma_assoc_absent(account_views(self.ids@), self.balances@, account@);
                }
                None
            },
        }
    }

    /// Sets the balance of an account, creating its entry where it has none.
    pub fn set(&mut self, account: &String, balance: u128)
        requires
            old(self).wf(),
        ensures
            final(self).wf(),
            final(self)@ == old(self)@.insert(account@, balance),
            final(self).total() == old(self).total() - old(self).held_by(account@) + balance,
    {
        let ghost names = account_views(self.ids@);
        match find_account(&self.ids, account) {
            Some(i) => {
                proof {
                    lemma_assoc_at(names, self.balances@, i as int);
                    lemma_assoc_update(names, self.balances@, i as int, balance);
                    lemma_sum_update(self.balances@, i as int, balance);
                }
                self.balances[i] = balance;
            },
            None => {
                proof {
                    lemma_assoc_absent(names, self.balances@, account@);
                    lemma_assoc_push(names, self.balances@, account@, balance);
                    lemma_sum_push(self.balances@, balance);
                }
                self.ids.push(account.clone());
                self.balances.push(balance);
                assert(account_views(self.ids@) =~= names.push(account@));
            },
        }
    }
}

} // verus!
