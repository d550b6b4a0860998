//! Key tables: the keys of one drop with their usage state, and the index that
//! says for every admitted key which drop owns it.

use vstd::prelude::*;
use crate::assoc::{assoc_map, lemma_assoc_at, lemma_assoc_absent, lemma_assoc_push};
use crate::types::{DropId, KeyInfo};

verus! {

/// The keys of a list, as sequences of bytes.
pub open spec fn key_views(keys: Seq<Vec<u8>>) -> Seq<Seq<u8>> {
    Seq::new(keys.len(), |i: int| keys[i]@)
}

/// The usage state of a key that was just admitted.
pub open spec fn fresh_key_info(uses: u64, allowance: u128, key_id: u64) -> KeyInfo {
    KeyInfo { remaining_uses: uses, last_used: 0, allowance, key_id }
}

/// The usage states of a batch admitted in order, numbered from `first_id` on.
pub open spec fn fresh_key_infos(count: nat, uses: u64, allowance: u128, first_id: u64) -> Seq<KeyInfo> {
    Seq::new(count, |j: int| fresh_key_info(uses, allowance, (first_id + j) as u64))
}

/// The map that binds every key of the batch to `owner`.
pub open spec fn owned_by(batch: Seq<Seq<u8>>, owner: DropId) -> Map<Seq<u8>, DropId> {
    Map::new(|k: Seq<u8>| batch.contains(k), |k: Seq<u8>| owner)
}

/// No key of the batch is bound in `owners`, and none occurs twice in the batch.
pub open spec fn batch_is_fresh<V>(owners: Map<Seq<u8>, V>, batch: Seq<Seq<u8>>) -> bool {
    &&& batch.no_duplicates()
    &&& forall|j: int| 0 <= j < batch.len() ==> !owners.contains_key(#[trigger] batch[j])
}

/// Finds the first position of a key in a list of keys.
pub fn find_key(keys: &Vec<Vec<u8>>, key: &Vec<u8>) -> (found: Option<usize>)
    ensures
        match found {
            Some(i) => {
                &&& i < keys.len()
                &&& keys[i as int]@ == key@
                &&& forall|j: int| 0 <= j < i ==> keys[j]@ != key@
            },
            None => forall|i: int| 0 <= i < keys.len() ==> keys[i]@ != key@,
        },
{
    let mut i: usize = 0;
    while i < keys.len()
        invariant
            i <= keys.len(),
            forall|j: int| 0 <= j < i ==> keys[j]@ != key@,
        decreases keys.len() - i,
    {
        if same_key(&keys[i], key) {
            return Some(i);
        }
        i += 1;
    }
    None
}

/// Compares two keys byte by byte.
pub fn same_key(a: &Vec<u8>, b: &Vec<u8>) -> (same: bool)
    ensures
        same == (a@ == b@),
{
    if a.len() != b.len() {
        return false;
    }
    let mut i: usize = 0;
    while i < a.len()
        invariant
            i <= a.len(),
            a.len() == b.len(),
            forall|j: int| 0 <= j < i ==> a[j] == b[j],
        decreases a.len() - i,
    {
        if a[i] != b[i] {
            return false;
        }
        i += 1;
    }
    assert(a@ =~= b@);
    true
}

/// Copies a key.
pub fn copy_key(key: &Vec<u8>) -> (copy: Vec<u8>)
    ensures
        copy@ == key@,
{
    let mut copy: Vec<u8> = Vec::new();
    let mut i: usize = 0;
    while i < key.len()
        invariant
            i <= key.len(),
            copy@ == key@.subrange(0, i as int),
        decreases key.len() - i,
    {
        copy.push(key[i]);
        assert(copy@ =~= key@.subrange(0, i + 1));
        i += 1;
    }
    assert(copy@ =~= key@);
    copy
}

/// Copies a list of keys.
pub fn copy_keys(keys: &Vec<Vec<u8>>) -> (copies: Vec<Vec<u8>>)
    ensures
        key_views(copies@) == key_views(keys@),
{
    let mut copies: Vec<Vec<u8>> = Vec::new();
    let mut i: usize = 0;
    while i < keys.len()
        invariant
            i <= keys.len(),
            copies.len() == i,
            forall|j: int| 0 <= j < i ==> copies[j]@ == keys[j]@,
        decreases keys.len() - i,
    {
        copies.push(copy_key(&keys[i]));
        i += 1;
    }
    assert(key_views(copies@) =~= key_views(keys@));
    copies
}

/// Whether no key of the batch occurs in `taken` or twice in the batch.
pub fn batch_fresh_against(taken: &Vec<Vec<u8>>, batch: &Vec<Vec<u8>>) -> (fresh: bool)
    ensures
        fresh == (key_views(batch@).no_duplicates() && forall|j: int, i: int|
            0 <= j < batch.len() && 0 <= i < taken.len() ==> batch[j]@ != taken[i]@),
{
    let mut j: usize = 0;
    while j < batch.len()
        invariant
            j <= batch.len(),
            forall|a: int, i: int| 0 <= a < j && 0 <= i < taken.len() ==> batch[a]@ != taken[i]@,
            forall|a: int, b: int| 0 <= a < b < j ==> batch[a]@ != batch[b]@,
        decreases batch.len() - j,
    {
        if let Some(i) = find_key(taken, &batch[j]) {
            assert(batch[j as int]@ == taken[i as int]@);
            return false;
        }
        let mut a: usize = 0;
        while a < j
            invariant
                a <= j,
                j < batch.len(),
                forall|b: int| 0 <= b < a ==> batch[b]@ != batch[j as int]@,
            decreases j - a,
        {
            if same_key(&batch[a], &batch[j]) {
                assert(key_views(batch@)[a as int] == key_views(batch@)[j as int]);
                return false;
            }
            a += 1;
        }
        j += 1;
    }
    assert(key_views(batch@).no_duplicates()) by {
        assert forall|a: int, b: int|
            0 <= a < batch.len() && 0 <= b < batch.len() && a != b implies key_views(batch@)[a]
            != key_views(batch@)[b] by {
            if a < b {
                assert(batch[a]@ != batch[b]@);
            } else {
                assert(batch[b]@ != batch[a]@);
            }
        }
    }
    true
}

/// The keys of one drop, in the order of their admission, each with its usage state.
#[derive(Clone, Debug, PartialEq, Eq)]
pub struct KeyTable {
    pub keys: Vec<Vec<u8>>,
    pub infos: Vec<KeyInfo>,
}

impl View for KeyTable {
    type V = Map<Seq<u8>, KeyInfo>;

    open spec fn view(&self) -> Map<Seq<u8>, KeyInfo> {
        assoc_map(key_views(self.keys@), self.infos@)
    }
}

impl KeyTable {
    /// Every key is listed once, with one usage state.
    pub open spec fn wf(&self) -> bool {
        &&& self.keys.len() == self.infos.len()
        &&& key_views(self.keys@).no_duplicates()
    }

    /// The keys in the order of their admission.
    pub open spec fn order(&self) -> Seq<Seq<u8>> {
        key_views(self.keys@)
    }

    /// Every sequence number in the table lies below `next_key_id`.
    pub open spec fn ids_below(&self, next_key_id: u64) -> bool {
        forall|j: int| 0 <= j < self.infos.len() ==> (#[trigger] self.infos[j]).key_id < next_key_id
    }

    /// A table without keys.
    pub fn new() -> (table: KeyTable)
        ensures
            table.wf(),
            table.order() == Seq::<Seq<u8>>::empty(),
            table.infos@ == Seq::<KeyInfo>::empty(),
            table@ == Map::<Seq<u8>, KeyInfo>::empty(),
    {
        let table = KeyTable { keys: Vec::new(), infos: Vec::new() };
        assert(table@ =~= Map::<Seq<u8>, KeyInfo>::empty());
        assert(table.order() =~= Seq::<Seq<u8>>::empty());
        table
    }

    /// The number of keys.
    pub fn len(&self) -> (n: usize)
        ensures
            n == self.keys.len(),
    {
        self.keys.len()
    }

    /// The usage state of a key, if the table holds it.
    pub fn get(&self, key: &Vec<u8>) -> (info: Option<KeyInfo>)
        requires
            self.wf(),
        ensures
            info == (if self@.contains_key(key@) {
                Some(self@[key@])
            } else {
                None
            }),
    {
        match find_key(&self.keys, key) {
            Some(i) => {
                proof {
                    lemma_assoc_at(key_views(self.keys@), self.infos@, i as int);
                }
                Some(self.infos[i])
            },
            None => {
                proof {
                    lemma_assoc_absent(key_views(self.keys@), self.infos@, key@);
                }
                None
            },
        }
    }

    /// Copies of the keys, in the order of their admission.
    pub fn public_keys(&self) -> (keys: Vec<Vec<u8>>)
        ensures
            key_views(keys@) == self.order(),
    {
        copy_keys(&self.keys)
    }

    /// Admits a batch of keys, each with fresh usage state and the next sequence numbers.
    pub fn enroll(&mut self, batch: &Vec<Vec<u8>>, uses: u64, allowance: u128, first_id: u64)
        requires
            old(self).wf(),
            batch_is_fresh(old(self)@, key_views(batch@)),
            first_id + batch.len() <= u64::MAX,
        ensures
            final(self).wf(),
            final(self).order() == old(self).order() + key_views(batch@),
            final(self).infos@ == old(self).infos@ + fresh_key_infos(
                batch.len() as nat,
                uses,
                allowance,
                first_id,
            ),
            final(self)@ == old(self)@.union_prefer_right(
                assoc_map(
                    key_views(batch@),
                    fresh_key_infos(batch.len() as nat, uses, allowance, first_id),
                ),
            ),
    {
        let ghost batch_keys = key_views(batch@);
        let ghost added = fresh_key_infos(batch.len() as nat, uses, allowance, first_id);
        let mut j: usize = 0;
        while j < batch.len()
            invariant
                j <= batch.len(),
                first_id + batch.len() <= u64::MAX,
                batch_keys == key_views(batch@),
                added == fresh_key_infos(batch.len() as nat, uses, allowance, first_id),
                batch_is_fresh(old(self)@, batch_keys),
                self.wf(),
                self.order() == old(self).order() + batch_keys.subrange(0, j as int),
                self.infos@ == old(self).infos@ + added.subrange(0, j as int),
                forall|k: Seq<u8>| #[trigger]
                    self@.contains_key(k) <==> old(self)@.contains_key(k) || batch_keys.subrange(
                        0,
                        j as int,
                    ).contains(k),
                forall|k: Seq<u8>| old(self)@.contains_key(k) ==> #[trigger] self@[k] == old(self)@[k],
                forall|a: int| 0 <= a < j ==> #[trigger] self@[batch_keys[a]] == added[a],
            decreases batch.len() - j,
        {
            let ghost before = *self;
            let ghost key = batch_keys[j as int];
            let info = KeyInfo {
                remaining_uses: uses,
                last_used: 0,
                allowance,
                key_id: first_id + j as u64,
            };
            proof {
                assert(info == added[j as int]);
                assert(!before@.contains_key(key)) by {
                    if batch_keys.subrange(0, j as int).contains(key) {
                        let a = batch_keys.subrange(0, j as int).index_of(key);
                        assert(batch_keys[a] == batch_keys[j as int]);
                    }
                }
                assert(!before.order().contains(key)) by {
                    if before.order().contains(key) {
                        let a = before.order().index_of(key);
                        lemma_assoc_at(before.order(), before.infos@, a);
                    }
                }
                lemma_assoc_push(before.order(), before.infos@, key, info);
            }
            self.keys.push(copy_key(&batch[j]));
            self.infos.push(info);
            proof {
                assert(self.order() =~= before.order().push(key));
                assert(batch_keys.subrange(0, j + 1) =~= batch_keys.subrange(0, j as int).push(key));
                assert(added.subrange(0, j + 1) =~= added.subrange(0, j as int).push(info));
                assert(self.order() =~= old(self).order() + batch_keys.subrange(0, j + 1));
                assert(self.infos@ =~= old(self).infos@ + added.subrange(0, j + 1));
                assert(self@ == before@.insert(key, info));
                assert forall|k: Seq<u8>| #[trigger]
                    self@.contains_key(k) <==> old(self)@.contains_key(k) || batch_keys.subrange(
                        0,
                        j + 1,
                    ).contains(k) by {
                    if batch_keys.subrange(0, j as int).contains(k) {
                        let a = batch_keys.subrange(0, j as int).index_of(k);
                        assert(batch_keys.subrange(0, j + 1)[a] == k);
                    }
                    if k == key {
                        assert(batch_keys.subrange(0, j + 1)[j as int] == k);
                    }
                    if batch_keys.subrange(0, j + 1).contains(k) {
                        let a = batch_keys.subrange(0, j + 1).index_of(k);
                        if a < j {
                            assert(batch_keys.subrange(0, j as int)[a] == k);
                        }
                    }
                }
                assert forall|a: int| 0 <= a < j + 1 implies #[trigger] self@[batch_keys[a]]
                    == added[a] by {
                    if a < j {
                        assert(batch_keys[a] != batch_keys[j as int]);
                        assert(before@[batch_keys[a]] == added[a]);
                    }
                }
            }
            j += 1;
        }
        proof {
            assert(batch_keys.subrange(0, batch.len() as int) =~= batch_keys);
            assert(added.subrange(0, batch.len() as int) =~= added);
            let news = assoc_map(batch_keys, added);
            let all = old(self)@.union_prefer_right(news);
            assert forall|k: Seq<u8>| self@.contains_key(k) <==> all.contains_key(k) by {}
            assert forall|k: Seq<u8>| self@.contains_key(k) implies #[trigger] self@[k] == all[k] by {
                if batch_keys.contains(k) {
                    let a = batch_keys.index_of(k);
                    lemma_assoc_at(batch_keys, added, a);
                    assert(self@[batch_keys[a]] == added[a]);
                }
            }
            assert(self@ =~= all);
        }
    }
}

/// For every admitted key, the drop that owns it.
#[derive(Clone, Debug, PartialEq, Eq)]
pub struct KeyIndex {
    pub keys: Vec<Vec<u8>>,
    pub drop_ids: Vec<DropId>,
}

impl View for KeyIndex {
    type V = Map<Seq<u8>, DropId>;

    open spec fn view(&self) -> Map<Seq<u8>, DropId> {
        assoc_map(key_views(self.keys@), self.drop_ids@)
    }
}

impl KeyIndex {
    /// Every key is listed once, with one owner.
    pub open spec fn wf(&self) -> bool {
        &&& self.keys.len() == self.drop_ids.len()
        &&& key_views(self.keys@).no_duplicates()
    }

    /// An index without keys.
    pub fn new() -> (index: KeyIndex)
        ensures
            index.wf(),
            index@ == Map::<Seq<u8>, DropId>::empty(),
    {
        let index = KeyIndex { keys: Vec::new(), drop_ids: Vec::new() };
        assert(index@ =~= Map::<Seq<u8>, DropId>::empty());
        index
    }

    /// The drop that owns a key, if any does.
    pub fn get(&self, key: &Vec<u8>) -> (owner: Option<DropId>)
        requires
            self.wf(),
        ensures
            owner == (if self@.contains_key(key@) {
                Some(self@[key@])
            } else {
                None
            }),
    {
        match find_key(&self.keys, key) {
            Some(i) => {
                proof {
                    lemma_assoc_at(key_views(self.keys@), self.drop_ids@, i as int);
                }
                Some(self.drop_ids[i])
            },
            None => {
                proof {
                    lemma_assoc_absent(key_views(self.keys@), self.drop_ids@, key@);
                }
                None
            },
        }
    }

    /// Whether a batch can be admitted: no key of it has an owner, and none occurs twice in it.
    pub fn accepts(&self, batch: &Vec<Vec<u8>>) -> (fresh: bool)
        requires
            self.wf(),
        ensures
            fresh == batch_is_fresh(self@, key_views(batch@)),
    {
        let fresh = batch_fresh_against(&self.keys, batch);
        proof {
            let names = key_views(self.keys@);
            let batch_keys = key_views(batch@);
            if fresh {
                assert forall|j: int| 0 <= j < batch_keys.len() implies !self@.contains_key(
                    #[trigger] batch_keys[j],
                ) by {
                    if names.contains(batch_keys[j]) {
                        let i = names.index_of(batch_keys[j]);
                        assert(batch[j]@ == self.keys[i]@);
                    }
                }
            } else if batch_keys.no_duplicates() {
                let (j, i) = choose|j: int, i: int|
                    0 <= j < batch.len() && 0 <= i < self.keys.len() && batch[j]@ == self.keys[i]@;
                lemma_assoc_at(names, self.drop_ids@, i);
                assert(self@.contains_key(batch_keys[j]));
            }
        }
        fresh
    }

    /// Records `owner` as the drop of every key of the batch.
    pub fn assign(&mut self, batch: &Vec<Vec<u8>>, owner: DropId)
        requires
            old(self).wf(),
            batch_is_fresh(old(self)@, key_views(batch@)),
        ensures
            final(self).wf(),
            final(self)@ == old(self)@.union_prefer_right(owned_by(key_views(batch@), owner)),
    {
        let ghost batch_keys = key_views(batch@);
        let mut j: usize = 0;
        while j < batch.len()
            invariant
                j <= batch.len(),
                batch_keys == key_views(batch@),
                batch_is_fresh(old(self)@, batch_keys),
                self.wf(),
                forall|k: Seq<u8>| #[trigger]
                    self@.contains_key(k) <==> old(self)@.contains_key(k) || batch_keys.subrange(
                        0,
                        j as int,
                    ).contains(k),
                forall|k: Seq<u8>| old(self)@.contains_key(k) ==> #[trigger] self@[k] == old(self)@[k],
                forall|k: Seq<u8>|
                    batch_keys.subrange(0, j as int).contains(k) ==> #[trigger] self@[k] == owner,
            decreases batch.len() - j,
        {
            let ghost before = *self;
            let ghost names = key_views(self.keys@);
            let ghost key = batch_keys[j as int];
            proof {
                assert(!before@.contains_key(key)) by {
                    if batch_keys.subrange(0, j as int).contains(key) {
                        let a = batch_keys.subrange(0, j as int).index_of(key);
                        assert(batch_keys[a] == batch_keys[j as int]);
                    }
                }
                assert(!names.contains(key)) by {
                    if names.contains(key) {
                        let a = names.index_of(key);
                        lemma_assoc_at(names, before.drop_ids@, a);
                    }
                }
                lemma_assoc_push(names, before.drop_ids@, key, owner);
            }
            self.keys.push(copy_key(&batch[j]));
            self.drop_ids.push(owner);
            proof {
                assert(key_views(self.keys@) =~= names.push(key));
                assert(self@ == before@.insert(key, owner));
                assert forall|k: Seq<u8>| #[trigger]
                    self@.contains_key(k) <==> old(self)@.contains_key(k) || batch_keys.subrange(
                        0,
                        j + 1,
                    ).contains(k) by {
                    if batch_keys.subrange(0, j as int).contains(k) {
                        let a = batch_keys.subrange(0, j as int).index_of(k);
                        assert(batch_keys.subrange(0, j + 1)[a] == k);
                    }
                    if k == key {
                        assert(batch_keys.subrange(0, j + 1)[j as int] == k);
                    }
                    if batch_keys.subrange(0, j + 1).contains(k) {
                        let a = batch_keys.subrange(0, j + 1).index_of(k);
                        if a < j {
                            assert(batch_keys.subrange(0, j as int)[a] == k);
                        }
                    }
                }
                assert forall|k: Seq<u8>|
                    batch_keys.subrange(0, j + 1).contains(k) implies #[trigger] self@[k]
                    == owner by {
                    let a = batch_keys.subrange(0, j + 1).index_of(k);
                    if a < j {
                        assert(batch_keys.subrange(0, j as int)[a] == k);
                    }
                }
            }
            j += 1;
        }
        proof {
            assert(batch_keys.subrange(0, batch.len() as int) =~= batch_keys);
            let all = old(self)@.union_prefer_right(owned_by(batch_keys, owner));
            assert forall|k: Seq<u8>| self@.contains_key(k) <==> all.contains_key(k) by {}
            assert forall|k: Seq<u8>| self@.contains_key(k) implies #[trigger] self@[k] == all[k] by {}
            assert(self@ =~= all);
        }
    }
}

} // verus!
