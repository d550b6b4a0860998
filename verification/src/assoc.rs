//! Association sequences: a finite map kept as two parallel sequences, one of
//! pairwise distinct keys and one of the values that belong to them.

use vstd::prelude::*;

verus! {

/// The map that `keys` and `values` stand for: `keys[i]` is bound to `values[i]`.
pub open spec fn assoc_map<K, V>(keys: Seq<K>, values: Seq<V>) -> Map<K, V> {
    Map::new(|k: K| keys.contains(k), |k: K| values[keys.index_of(k)])
}

/// The sum of a sequence of amounts.
pub open spec fn sum_of(amounts: Seq<u128>) -> nat
    decreases amounts.len(),
{
    if amounts.len() == 0 {
        0
    } else {
        sum_of(amounts.drop_last()) + amounts.last() as nat
    }
}

/// The key at position `i` is bound to the value at position `i`.
pub proof fn lemma_assoc_at<K, V>(keys: Seq<K>, values: Seq<V>, i: int)
    requires
        keys.no_duplicates(),
        keys.len() == values.len(),
        0 <= i < keys.len(),
    ensures
        assoc_map(keys, values).contains_key(keys[i]),
        assoc_map(keys, values)[keys[i]] == values[i],
{
    let j = keys.index_of(keys[i]);
    assert(0 <= j < keys.len() && keys[j] == keys[i]);
}

/// A key that occurs nowhere in `keys` is unbound.
pub proof fn lemma_assoc_absent<K, V>(keys: Seq<K>, values: Seq<V>, k: K)
    requires
        forall|i: int| 0 <= i < keys.len() ==> keys[i] != k,
    ensures
        !assoc_map(keys, values).contains_key(k),
{
}

/// Appending a fresh key binds it and leaves every other binding alone.
pub proof fn lemma_assoc_push<K, V>(keys: Seq<K>, values: Seq<V>, k: K, v: V)
    requires
        keys.no_duplicates(),
        keys.len() == values.len(),
        !keys.contains(k),
    ensures
        keys.push(k).no_duplicates(),
        assoc_map(keys.push(k), values.push(v)) == assoc_map(keys, values).insert(k, v),
{
    let keys2 = keys.push(k);
    let values2 = values.push(v);
    let before = assoc_map(keys, values);
    let after = assoc_map(keys2, values2);
    assert(keys2.no_duplicates()) by {
        assert forall|i: int, j: int|
            0 <= i < keys2.len() && 0 <= j < keys2.len() && i != j implies keys2[i] != keys2[j] by {
            if i < keys.len() && j < keys.len() {
                assert(keys[i] != keys[j]);
            } else if i < keys.len() {
                assert(keys[i] != k);
            } else {
                assert(keys[j] != k);
            }
        }
    }
    assert forall|x: K| after.contains_key(x) <==> before.insert(k, v).contains_key(x) by {
        if keys.contains(x) {
            let i = keys.index_of(x);
            assert(keys2[i] == x);
        }
        if x == k {
            assert(keys2[keys.len() as int] == x);
        }
        if keys2.contains(x) {
            let i = keys2.index_of(x);
            if i < keys.len() {
                assert(keys[i] == x);
            }
        }
    }
    assert forall|x: K| after.contains_key(x) implies #[trigger] after[x] == before.insert(k, v)[x] by {
        let i = keys2.index_of(x);
        lemma_assoc_at(keys2, values2, i);
        if i < keys.len() {
            assert(keys[i] == x);
            lemma_assoc_at(keys, values, i);
        }
    }
    assert(after =~= before.insert(k, v));
}

/// Replacing the value at position `i` rebinds `keys[i]` and nothing else.
pub proof fn lemma_assoc_update<K, V>(keys: Seq<K>, values: Seq<V>, i: int, v: V)
    requires
        keys.no_duplicates(),
        keys.len() == values.len(),
        0 <= i < keys.len(),
    ensures
        assoc_map(keys, values.update(i, v)) == assoc_map(keys, values).insert(keys[i], v),
{
    let values2 = values.update(i, v);
    let before = assoc_map(keys, values);
    let after = assoc_map(keys, values2);
    lemma_assoc_at(keys, values, i);
    assert forall|x: K| after.contains_key(x) implies #[trigger] after[x] == before.insert(keys[i], v)[x] by {
        let j = keys.index_of(x);
        lemma_assoc_at(keys, values2, j);
        lemma_assoc_at(keys, values, j);
    }
    assert(after =~= before.insert(keys[i], v));
}

/// Appending an amount adds it to the sum.
pub proof fn lemma_sum_push(amounts: Seq<u128>, amount: u128)
    ensures
        sum_of(amounts.push(amount)) == sum_of(amounts) + amount,
{
    assert(amounts.push(amount).drop_last() =~= amounts);
}

/// Replacing one amount moves the sum by the difference.
pub proof fn lemma_sum_update(amounts: Seq<u128>, i: int, amount: u128)
    requires
        0 <= i < amounts.len(),
    ensures
        sum_of(amounts.update(i, amount)) == sum_of(amounts) - amounts[i] + amount,
    decreases amounts.len(),
{
    let changed = amounts.update(i, amount);
    if i == amounts.len() - 1 {
        assert(changed.drop_last() =~= amounts.drop_last());
    } else {
        assert(changed.drop_last() =~= amounts.drop_last().update(i, amount));
        lemma_sum_update(amounts.drop_last(), i, amount);
    }
}

/// No single amount exceeds the sum.
pub proof fn lemma_sum_bounds(amounts: Seq<u128>, i: int)
    requires
        0 <= i < amounts.len(),
    ensures
        amounts[i] <= sum_of(amounts),
    decreases amounts.len(),
{
    if i < amounts.len() - 1 {
        lemma_sum_bounds(amounts.drop_last(), i);
    }
}

} // verus!
