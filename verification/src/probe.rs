//! The storage probe of a non-fungible-token drop: one token identifier of the
//! longest length is stored for a moment, so that the platform can meter what such
//! an identifier takes, and is removed again.

use vstd::prelude::*;
use crate::engine::Keypom;
use crate::payload::{DropType, NFTData};
use crate::store::Drop;
use crate::types::DropId;

verus! {

/// The token identifiers that a drop holds; none where it hands out no such tokens.
pub open spec fn token_queue(drop: Drop) -> Seq<String> {
    match drop.drop_type {
        DropType::NonFungibleToken(data) => data.token_ids@,
        _ => Seq::empty(),
    }
}

/// Two records of a drop differ at most in the token identifiers they hold.
pub open spec fn same_but_tokens(before: Drop, after: Drop) -> bool {
    &&& after.owner_id == before.owner_id
    &&& after.pks == before.pks
    &&& after.deposit_per_use == before.deposit_per_use
    &&& after.registered_uses == before.registered_uses
    &&& after.required_gas == before.required_gas
    &&& after.config == before.config
    &&& after.metadata == before.metadata
    &&& after.next_key_id == before.next_key_id
    &&& after.status == before.status
    &&& match (before.drop_type, after.drop_type) {
        (DropType::NonFungibleToken(was), DropType::NonFungibleToken(now)) => {
            &&& now.sender_id == was.sender_id
            &&& now.contract_id == was.contract_id
            &&& now.longest_token_id == was.longest_token_id
            &&& now.storage_for_longest == was.storage_for_longest
        },
        (was, now) => now == was,
    }
}

impl NFTData {
    /// Appends the longest token identifier to the tokens held.
    pub fn store_probe(&mut self)
        ensures
            final(self).token_ids@ == old(self).token_ids@.push(old(self).longest_token_id),
            final(self).sender_id == old(self).sender_id,
            final(self).contract_id == old(self).contract_id,
            final(self).longest_token_id == old(self).longest_token_id,
            final(self).storage_for_longest == old(self).storage_for_longest,
    {
        let probe = self.longest_token_id.clone();
        self.token_ids.push(probe);
    }

    /// Removes the token identifier that was appended last, if there is one.
    pub fn remove_probe(&mut self) -> (removed: bool)
        ensures
            removed == (old(self).token_ids@.len() > 0),
            removed ==> final(self).token_ids@ == old(self).token_ids@.drop_last(),
            !removed ==> final(self).token_ids@ == old(self).token_ids@,
            final(self).sender_id == old(self).sender_id,
            final(self).contract_id == old(self).contract_id,
            final(self).longest_token_id == old(self).longest_token_id,
            final(self).storage_for_longest == old(self).storage_for_longest,
    {
        self.token_ids.pop().is_some()
    }
}

impl Keypom {
    /// The drop exists and hands out non-fungible tokens.
    pub open spec fn takes_tokens(&self, drop_id: DropId) -> bool {
        drop_id < self.drop_for_id.len()
            && self.drop_for_id[drop_id as int].drop_type is NonFungibleToken
    }

    /// `post` is this state but for the token identifiers that the drop holds.
    pub open spec fn same_but_tokens_of(&self, post: Keypom, drop_id: DropId) -> bool {
        &&& post.same_but_drop(*self, drop_id)
        &&& post.user_balances == self.user_balances
        &&& post.fees_collected == self.fees_collected
        &&& post.funds_held == self.funds_held
        &&& same_but_tokens(self.drop_for_id[drop_id as int], post.drop_for_id[drop_id as int])
    }

    /// `post` is this state with the probe stored in the drop: the drop holds its
    /// longest token identifier after the tokens it held, and nothing else differs.
    pub open spec fn probe_stored(&self, post: Keypom, drop_id: DropId) -> bool {
        &&& self.same_but_tokens_of(post, drop_id)
        &&& token_queue(post.drop_for_id[drop_id as int]) == token_queue(
            self.drop_for_id[drop_id as int],
        ).push(self.drop_for_id[drop_id as int].drop_type->NonFungibleToken_0.longest_token_id)
    }

    /// `post` is this state with the probe removed from the drop: the drop no longer
    /// holds the token identifier that it held last, and nothing else differs.
    pub open spec fn probe_removed(&self, post: Keypom, drop_id: DropId) -> bool {
        &&& self.same_but_tokens_of(post, drop_id)
        &&& token_queue(post.drop_for_id[drop_id as int]) == token_queue(
            self.drop_for_id[drop_id as int],
        ).drop_last()
    }

    /// Stores the probe in a non-fungible-token drop. Nothing else changes; for any
    /// other drop id nothing changes at all.
    pub fn store_probe(&mut self, drop_id: DropId) -> (stored: bool)
        requires
            old(self).wf(),
        ensures
            final(self).wf(),
            stored == old(self).takes_tokens(drop_id),
            stored ==> old(self).probe_stored(*final(self), drop_id),
            !stored ==> *final(self) == *old(self),
    {
        if drop_id >= self.drop_for_id.len() as u128 {
            return false;
        }
        let at: usize = drop_id as usize;
        let takes = match &self.drop_for_id[at].drop_type {
            DropType::NonFungibleToken(_) => true,
            _ => false,
        };
        if !takes {
            return false;
        }
        let ghost pre = *self;
        match &mut self.drop_for_id[at].drop_type {
            DropType::NonFungibleToken(data) => {
                data.store_probe();
            },
            _ => {},
        }
        proof {
            pre.lemma_tokens_do_not_matter(*self, drop_id);
        }
        true
    }

    /// Removes the probe from a non-fungible-token drop that holds a token identifier.
    /// Nothing else changes; for any other drop id nothing changes at all.
    pub fn remove_probe(&mut self, drop_id: DropId) -> (removed: bool)
        requires
            old(self).wf(),
        ensures
            final(self).wf(),
            removed == (old(self).takes_tokens(drop_id) && token_queue(
                old(self).drop_for_id[drop_id as int],
            ).len() > 0),
            removed ==> old(self).probe_removed(*final(self), drop_id),
            !removed ==> *final(self) == *old(self),
    {
        if drop_id >= self.drop_for_id.len() as u128 {
            return false;
        }
        let at: usize = drop_id as usize;
        let holds = match &self.drop_for_id[at].drop_type {
            DropType::NonFungibleToken(data) => data.token_ids.len() > 0,
            _ => false,
        };
        if !holds {
            return false;
        }
        let ghost pre = *self;
        match &mut self.drop_for_id[at].drop_type {
            DropType::NonFungibleToken(data) => {
                data.remove_probe();
            },
            _ => {},
        }
        proof {
            pre.lemma_tokens_do_not_matter(*self, drop_id);
        }
        true
    }

    /// A state that differs from a well-formed one only in the token identifiers
    /// that a drop holds is well-formed.
    pub proof fn lemma_tokens_do_not_matter(&self, post: Keypom, drop_id: DropId)
        requires
            self.wf(),
            drop_id < self.drop_for_id.len(),
            self.same_but_tokens_of(post, drop_id),
        ensures
            post.wf(),
    {
        let at = drop_id as int;
        let after = post.drop_for_id[at];
        crate::store::lemma_held_update(self.drop_for_id@, at, after);
        assert(post.drop_for_id@ =~= self.drop_for_id@.update(at, after));
        assert(self.drop_for_id[at].wf());
        assert(after.wf());
        assert forall|i: int| 0 <= i < post.drop_for_id.len() implies (
        #[trigger] post.drop_for_id[i]).wf() by {
            if i != at {
                assert(post.drop_for_id[i] == self.drop_for_id[i]);
            }
        }
        assert forall|i: int|
            0 <= i < post.drop_for_id.len() implies post.user_balances@.contains_key(
            (#[trigger] post.drop_for_id[i]).owner_id@,
        ) by {
            if i != at {
                assert(post.drop_for_id[i] == self.drop_for_id[i]);
            } else {
                assert(self.user_balances@.contains_key(self.drop_for_id[at].owner_id@));
            }
        }
        assert forall|i: int|
            0 <= i < post.drop_for_id.len() implies post.platform.allowance_for(
            (#[trigger] post.drop_for_id[i]).required_gas,
            post.drop_for_id[i].uses_per_key(),
        ) <= u128::MAX by {
            if i != at {
                assert(post.drop_for_id[i] == self.drop_for_id[i]);
            } else {
                assert(self.platform.allowance_for(
                    self.drop_for_id[at].required_gas,
                    self.drop_for_id[at].uses_per_key(),
                ) <= u128::MAX);
            }
        }
        assert forall|i: int, k: Seq<u8>|
            0 <= i < post.drop_for_id.len() && #[trigger] post.drop_for_id[i].pks@.contains_key(
                k,
            ) implies post.drop_id_for_pk@.contains_key(k) && post.drop_id_for_pk@[k] == i by {
            if i != at {
                assert(post.drop_for_id[i] == self.drop_for_id[i]);
            }
            assert(self.drop_for_id[i].pks@.contains_key(k));
        }
        assert forall|k: Seq<u8>| #[trigger]
            post.drop_id_for_pk@.contains_key(k) implies post.drop_id_for_pk@[k]
            < post.drop_for_id.len() && post.drop_for_id[post.drop_id_for_pk@[k] as int].pks@.contains_key(
        k) by {
            let i = self.drop_id_for_pk@[k] as int;
            assert(self.drop_for_id[i].pks@.contains_key(k));
            if i != at {
                assert(post.drop_for_id[i] == self.drop_for_id[i]);
            }
        }
    }
}

} // verus!
