//! Settling a pending drop: what happens when the token registry has answered,
//! or has failed to.

use vstd::prelude::*;
use vstd::arithmetic::overflow::CheckedU128;
use crate::engine::{token_scope, KeyGrant, Keypom};
use crate::keys::key_views;
use crate::payload::{DropType, StorageBalanceBounds};
use crate::store::{lemma_held_bounds, lemma_held_update, Drop, DropStatus};
use crate::types::{claim_permission, method_scope, uses_per_key, AdmissionError, DropId};

verus! {

/// What registering a holder for every use of every key of a drop costs.
pub open spec fn registration_shortfall(drop: Drop, cost_per_use: u128) -> int {
    cost_per_use * drop.uses_per_key() * drop.pks.keys.len()
}

impl Keypom {
    /// What keeps a pending drop from being funded, if anything does. The checks are
    /// made in this order, and the first that fails decides.
    pub open spec fn settlement_fault(
        &self,
        drop_id: DropId,
        response: Option<StorageBalanceBounds>,
    ) -> Option<AdmissionError> {
        if drop_id >= self.drop_for_id.len() {
            Some(AdmissionError::DropNotFound)
        } else {
            let drop = self.drop_for_id[drop_id as int];
            if !(drop.status is Pending) {
                Some(AdmissionError::NotPending)
            } else {
                match response {
                    None => Some(AdmissionError::ExternalCallFailure),
                    Some(bounds) => if registration_shortfall(drop, bounds.min)
                        > self.user_balances@[drop.owner_id@] {
                        Some(AdmissionError::UnderfundedAfterDiscovery)
                    } else {
                        None
                    },
                }
            }
        }
    }

    /// Everything about the engine but the balances, the fees earned, the sum of
    /// funds and the drop `drop_id` is as in `pre`.
    pub open spec fn same_but_drop(&self, pre: Keypom, drop_id: DropId) -> bool {
        &&& self.platform == pre.platform
        &&& self.default_fees == pre.default_fees
        &&& self.fees_per_user == pre.fees_per_user
        &&& self.drop_id_for_pk == pre.drop_id_for_pk
        &&& self.next_drop_id == pre.next_drop_id
        &&& self.drop_for_id@.len() == pre.drop_for_id@.len()
        &&& forall|i: int|
            0 <= i < pre.drop_for_id.len() && i != drop_id ==> #[trigger] self.drop_for_id[i]
                == pre.drop_for_id[i]
    }

    /// The state after a pending drop fell through, `self` being the state before:
    /// the funder has back what was charged, the fees on it are no longer counted as
    /// earned, and the drop is marked as failed for good.
    pub open spec fn abandoned(&self, post: Keypom, drop_id: DropId) -> bool {
        let before = self.drop_for_id[drop_id as int];
        let after = post.drop_for_id[drop_id as int];
        let owner = before.owner_id@;
        &&& post.same_but_drop(*self, drop_id)
        &&& post.user_balances@ == self.user_balances@.insert(
            owner,
            (self.user_balances@[owner] + before.held() + before.pending_fees()) as u128,
        )
        &&& post.fees_collected == self.fees_collected - before.pending_fees()
        &&& post.funds_held == self.funds_held
        &&& after.status is Failed
        &&& after.owner_id == before.owner_id
        &&& after.pks == before.pks
        &&& after.deposit_per_use == before.deposit_per_use
        &&& after.registered_uses == before.registered_uses
        &&& after.required_gas == before.required_gas
        &&& after.drop_type == before.drop_type
        &&& after.config == before.config
        &&& after.metadata == before.metadata
        &&& after.next_key_id == before.next_key_id
    }

    /// The state after a pending drop was funded, `self` being the state before: the
    /// funder has paid the registration cost on top of what was charged, nothing is
    /// held back any longer, the drop knows the cost and is funded, and there is one
    /// token to issue for each of its keys.
    pub open spec fn settled(
        &self,
        post: Keypom,
        drop_id: DropId,
        cost_per_use: u128,
        grant: KeyGrant,
    ) -> bool {
        let before = self.drop_for_id[drop_id as int];
        let after = post.drop_for_id[drop_id as int];
        let owner = before.owner_id@;
        let shortfall = registration_shortfall(before, cost_per_use);
        &&& post.same_but_drop(*self, drop_id)
        &&& post.user_balances@ == self.user_balances@.insert(
            owner,
            (self.user_balances@[owner] - shortfall) as u128,
        )
        &&& post.fees_collected == self.fees_collected
        &&& post.funds_held == self.funds_held - before.held() - shortfall
        &&& after.status is Funded
        &&& after.owner_id == before.owner_id
        &&& after.pks == before.pks
        &&& after.deposit_per_use == before.deposit_per_use
        &&& after.registered_uses == before.registered_uses
        &&& after.required_gas == before.required_gas
        &&& after.config == before.config
        &&& after.metadata == before.metadata
        &&& after.next_key_id == before.next_key_id
        &&& before.drop_type matches DropType::FungibleToken(was)
        &&& after.drop_type matches DropType::FungibleToken(now)
        &&& now.contract_id == was.contract_id
        &&& now.sender_id == was.sender_id
        &&& now.balance_per_use == was.balance_per_use
        &&& now.ft_storage == Some(cost_per_use)
        &&& key_views(grant.public_keys@) == before.pks.order()
        &&& grant.allowance == self.platform.allowance_for(
            before.required_gas,
            before.uses_per_key(),
        )
        &&& grant.scope == token_scope(before.config, None)
    }

    /// Takes the token registry's answer for a pending drop; `None` says that the
    /// registry could not be asked or gave no usable answer.
    ///
    /// With an answer that the funder's balance covers, the drop is funded and its
    /// tokens are to be issued. Without an answer, or with one that the balance does
    /// not cover, the drop is abandoned and the funder gets back all that was charged.
    /// A drop is settled once: any later call for it is turned down with the state as
    /// it was.
    pub fn resolve_storage_check(
        &mut self,
        drop_id: DropId,
        response: Option<StorageBalanceBounds>,
    ) -> (result: Result<KeyGrant, AdmissionError>)
        requires
            old(self).wf(),
        ensures
            final(self).wf(),
            match result {
                Ok(grant) => {
                    &&& old(self).settlement_fault(drop_id, response) is None
                    &&& old(self).settled(*final(self), drop_id, response->0.min, grant)
                },
                Err(e) => {
                    &&& old(self).settlement_fault(drop_id, response) == Some(e)
                    &&& (e == AdmissionError::ExternalCallFailure || e
                        == AdmissionError::UnderfundedAfterDiscovery) ==> old(self).abandoned(
                        *final(self),
                        drop_id,
                    )
                    &&& (e == AdmissionError::DropNotFound || e == AdmissionError::NotPending)
                        ==> *final(self) == *old(self)
                },
            },
    {
        let ghost pre = *self;
        if drop_id >= self.drop_for_id.len() as u128 {
            return Err(AdmissionError::DropNotFound);
        }
        let at: usize = drop_id as usize;
        let drop = &self.drop_for_id[at];
        let ghost before = *drop;
        assert(before.wf());
        let (held, fees) = match drop.status {
            DropStatus::Pending { held, fees } => (held, fees),
            _ => {
                return Err(AdmissionError::NotPending);
            },
        };
        proof {
            self.user_balances.lemma_balance_within_total(before.owner_id@);
            lemma_held_bounds(self.drop_for_id@, at as int);
        }
        let balance = match self.user_balances.get(&drop.owner_id) {
            Some(b) => b,
            None => {
                // not reached: the funder of a drop has a balance
                return Err(AdmissionError::NoBalance);
            },
        };
        let uses = uses_per_key(&drop.config);
        let key_count = drop.pks.len();
        let settlement: Option<(u128, u128)> = match response {
            None => None,
            Some(bounds) => {
                let shortfall = CheckedU128::new(bounds.min).mul_value(uses as u128).mul_value(
                    key_count as u128,
                ).to_option();
                match shortfall {
                    Some(s) => if s <= balance {
                        Some((bounds.min, s))
                    } else {
                        None
                    },
                    None => None,
                }
            },
        };
        match settlement {
            None => {
                let owner = drop.owner_id.clone();
                self.drop_for_id[at].status = DropStatus::Failed;
                self.user_balances.set(&owner, balance + held + fees);
                self.fees_collected = self.fees_collected - fees;
                proof {
                    let post = *self;
                    let after = post.drop_for_id[at as int];
                    lemma_held_update(pre.drop_for_id@, at as int, after);
                    assert(post.drop_for_id@ =~= pre.drop_for_id@.update(at as int, after));
                    assert forall|i: int|
                        0 <= i < post.drop_for_id.len() implies post.user_balances@.contains_key(
                        (#[trigger] post.drop_for_id[i]).owner_id@,
                    ) by {
                        if i != at {
                            assert(post.drop_for_id[i] == pre.drop_for_id[i]);
                        }
                    }
                }
                if response.is_none() {
                    Err(AdmissionError::ExternalCallFailure)
                } else {
                    Err(AdmissionError::UnderfundedAfterDiscovery)
                }
            },
            Some((cost, shortfall)) => {
                let owner = drop.owner_id.clone();
                let scope = method_scope(claim_permission(&drop.config));
                let allowance = match self.platform.allowance_per_key(drop.required_gas, uses) {
                    Some(a) => a,
                    None => {
                        // not reached: the allowance was written down when the drop was created
                        return Err(AdmissionError::CapacityExceeded);
                    },
                };
                let public_keys = drop.pks.public_keys();
                let drop = &mut self.drop_for_id[at];
                drop.status = DropStatus::Funded;
                match &mut drop.drop_type {
                    DropType::FungibleToken(data) => {
                        data.ft_storage = Some(cost);
                    },
                    _ => {},
                }
                self.user_balances.set(&owner, balance - shortfall);
                self.funds_held = self.funds_held - held - shortfall;
                proof {
                    let post = *self;
                    let after = post.drop_for_id[at as int];
                    lemma_held_update(pre.drop_for_id@, at as int, after);
                    assert(post.drop_for_id@ =~= pre.drop_for_id@.update(at as int, after));
                    assert forall|i: int|
                        0 <= i < post.drop_for_id.len() implies post.user_balances@.contains_key(
                        (#[trigger] post.drop_for_id[i]).owner_id@,
                    ) by {
                        if i != at {
                            assert(post.drop_for_id[i] == pre.drop_for_id[i]);
                        }
                    }
                }
                Ok(KeyGrant { public_keys, allowance, scope })
            },
        }
    }
}

} // verus!
