//! Sequences of keyed entries: what an insertion-ordered map holds, and how
//! binding and removing a key change it.

use vstd::prelude::*;
use vstd::seq_lib::seq_to_set_is_finite;
use vstd::set_lib::lemma_int_range;
use vstd::set_lib::lemma_len_subset;
use vstd::set_lib::set_int_range;

verus! {

/// Whether some entry has the key.
pub open spec fn has_key<K, V>(entries: Seq<(K, V)>, key: K) -> bool {
    exists|i: int| 0 <= i < entries.len() && (#[trigger] entries[i]).0 == key
}

/// Whether no two entries share a key.
pub open spec fn distinct_keys<K, V>(entries: Seq<(K, V)>) -> bool {
    forall|i: int, j: int|
        0 <= i < j < entries.len() ==> (#[trigger] entries[i]).0 != (#[trigger] entries[j]).0
}

/// The place of an entry with the key, where there is one.
pub open spec fn position<K, V>(entries: Seq<(K, V)>, key: K) -> int {
    choose|i: int| 0 <= i < entries.len() && (#[trigger] entries[i]).0 == key
}

/// The entries after `key` was bound to `value`: a present key keeps its place,
/// a new one goes to the end.
pub open spec fn put<K, V>(entries: Seq<(K, V)>, key: K, value: V) -> Seq<(K, V)> {
    if has_key(entries, key) {
        entries.update(position(entries, key), (key, value))
    } else {
        entries.push((key, value))
    }
}

/// The entries after `key` was taken out: the last entry moves to its place.
pub open spec fn swap_removed<K, V>(entries: Seq<(K, V)>, key: K) -> Seq<(K, V)> {
    if has_key(entries, key) {
        entries.update(position(entries, key), entries.last()).drop_last()
    } else {
        entries
    }
}

/// The value bound to the key, if any.
pub open spec fn value_of<K, V>(entries: Seq<(K, V)>, key: K) -> Option<V> {
    if has_key(entries, key) {
        Some(entries[position(entries, key)].1)
    } else {
        None
    }
}

/// How many entries have the key.
pub open spec fn count_key<K, V>(entries: Seq<(K, V)>, key: K) -> nat
    decreases entries.len(),
{
    if entries.len() == 0 {
        0
    } else {
        count_key(entries.drop_last(), key) + if entries.last().0 == key {
            1nat
        } else {
            0nat
        }
    }
}

/// With distinct keys, the place of a key is the one place where it stands.
pub proof fn lemma_position<K, V>(entries: Seq<(K, V)>, key: K, i: int)
    requires
        distinct_keys(entries),
        0 <= i < entries.len(),
        entries[i].0 == key,
    ensures
        has_key(entries, key),
        position(entries, key) == i,
        value_of(entries, key) == Some(entries[i].1),
{
    let p = position(entries, key);
    assert(0 <= p < entries.len() && entries[p].0 == key);
    if p < i {
        assert(entries[p].0 != entries[i].0);
    } else if i < p {
        assert(entries[i].0 != entries[p].0);
    }
}

/// A key that no entry has is counted zero times, and the other way round.
pub proof fn lemma_count_absent<K, V>(entries: Seq<(K, V)>, key: K)
    ensures
        has_key(entries, key) <==> count_key(entries, key) > 0,
    decreases entries.len(),
{
    if entries.len() > 0 {
        let front = entries.drop_last();
        lemma_count_absent(front, key);
        if has_key(front, key) {
            let i = position(front, key);
            assert(entries[i] == front[i]);
        }
        if has_key(entries, key) && entries.last().0 != key {
            let i = position(entries, key);
            assert(front[i] == entries[i]);
        }
        if entries.last().0 == key {
            assert(entries[entries.len() - 1].0 == key);
        }
    }
}

/// With distinct keys, a key that is present is counted once.
pub proof fn lemma_count_distinct<K, V>(entries: Seq<(K, V)>, key: K)
    requires
        distinct_keys(entries),
    ensures
        count_key(entries, key) == if has_key(entries, key) {
            1nat
        } else {
            0nat
        },
    decreases entries.len(),
{
    lemma_count_absent(entries, key);
    if entries.len() > 0 {
        let front = entries.drop_last();
        assert forall|i: int, j: int| 0 <= i < j < front.len() implies (#[trigger] front[i]).0 != (
        #[trigger] front[j]).0 by {
            assert(front[i] == entries[i]);
            assert(front[j] == entries[j]);
        }
        lemma_count_distinct(front, key);
        lemma_count_absent(front, key);
        if entries.last().0 == key && has_key(front, key) {
            let i = position(front, key);
            assert(front[i] == entries[i]);
            assert(entries[i].0 != entries[entries.len() - 1].0);
        }
    }
}

/// Among the numbers from nought to the number of entries, one is no key.
pub proof fn lemma_free_key<V>(entries: Seq<(u128, V)>)
    requires
        entries.len() < u128::MAX,
    ensures
        exists|key: u128| key <= entries.len() && !#[trigger] has_key(entries, key),
{
    let n = entries.len() as int;
    if forall|key: u128| key <= n ==> #[trigger] has_key(entries, key) {
        let keys = Seq::new(entries.len(), |i: int| entries[i].0 as int);
        let held = keys.to_set();
        keys.lemma_cardinality_of_set();
        seq_to_set_is_finite(keys);
        let range = set_int_range(0, n + 1);
        lemma_int_range(0, n + 1);
        assert forall|k: int| range.contains(k) implies held.contains(k) by {
            let key = k as u128;
            assert(has_key(entries, key));
            let at = position(entries, key);
            assert(keys[at] == k);
            assert(keys.contains(k));
        }
        lemma_len_subset(range, held);
        assert(false);
    }
}

/// Binding a key keeps the keys distinct, binds that key to the value and
/// leaves every other key as it was.
pub proof fn lemma_put<K, V>(entries: Seq<(K, V)>, key: K, value: V)
    requires
        distinct_keys(entries),
    ensures
        distinct_keys(put(entries, key, value)),
        value_of(put(entries, key, value), key) == Some(value),
        forall|other: K|
            other != key ==> #[trigger] value_of(put(entries, key, value), other) == value_of(
                entries,
                other,
            ),
        put(entries, key, value).len() == if has_key(entries, key) {
            entries.len()
        } else {
            entries.len() + 1
        },
        forall|i: int|
            0 <= i < put(entries, key, value).len() ==> #[trigger] put(entries, key, value)[i] == (
                key,
                value,
            ) || (i < entries.len() && put(entries, key, value)[i] == entries[i]),
{
    let after = put(entries, key, value);
    let at = if has_key(entries, key) {
        position(entries, key)
    } else {
        entries.len() as int
    };
    assert(after[at] == (key, value));
    assert forall|i: int| 0 <= i < after.len() && i != at implies #[trigger] after[i]
        == entries[i] && entries[i].0 != key by {
        if entries[i].0 == key {
            lemma_position(entries, key, i);
        }
    }
    assert forall|i: int, j: int| 0 <= i < j < after.len() implies (#[trigger] after[i]).0 != (
    #[trigger] after[j]).0 by {
        if i != at && j != at {
            assert(entries[i].0 != entries[j].0);
        }
    }
    lemma_position(after, key, at);
    assert forall|other: K| other != key implies #[trigger] value_of(after, other) == value_of(
        entries,
        other,
    ) by {
        if has_key(entries, other) {
            let i = position(entries, other);
            assert(after[i] == entries[i]);
            lemma_position(after, other, i);
        }
        if has_key(after, other) {
            let i = position(after, other);
            assert(after[i] == entries[i]);
            lemma_position(entries, other, i);
        }
    }
}

/// Removing a key keeps the keys distinct, leaves that key unbound and every
/// other key as it was; a key that was not bound leaves the entries unchanged.
pub proof fn lemma_swap_removed<K, V>(entries: Seq<(K, V)>, key: K)
    requires
        distinct_keys(entries),
    ensures
        distinct_keys(swap_removed(entries, key)),
        value_of(swap_removed(entries, key), key) == None::<V>,
        forall|other: K|
            other != key ==> #[trigger] value_of(swap_removed(entries, key), other) == value_of(
                entries,
                other,
            ),
        !has_key(entries, key) ==> swap_removed(entries, key) == entries,
        has_key(entries, key) ==> swap_removed(entries, key).len() == entries.len() - 1,
        forall|i: int|
            0 <= i < swap_removed(entries, key).len() ==> #[trigger] swap_removed(entries, key)[i]
                == entries[i] || swap_removed(entries, key)[i] == entries.last(),
{
    let after = swap_removed(entries, key);
    if has_key(entries, key) {
        let at = position(entries, key);
        let last = entries.len() - 1;
        assert forall|i: int| 0 <= i < after.len() implies #[trigger] after[i] == entries[if i
            == at {
            last
        } else {
            i
        }] by {}
        assert forall|i: int, j: int| 0 <= i < j < after.len() implies (#[trigger] after[i]).0 != (
        #[trigger] after[j]).0 by {
            let si = if i == at { last } else { i };
            let sj = if j == at { last } else { j };
            assert(after[i] == entries[si]);
            assert(after[j] == entries[sj]);
            if si < sj {
                assert(entries[si].0 != entries[sj].0);
            } else {
                assert(entries[sj].0 != entries[si].0);
            }
        }
        if has_key(after, key) {
            let i = position(after, key);
            let si = if i == at { last } else { i };
            assert(after[i] == entries[si]);
            lemma_position(entries, key, si);
        }
        assert forall|other: K| other != key implies #[trigger] value_of(after, other)
            == value_of(entries, other) by {
            if has_key(entries, other) {
                let i = position(entries, other);
                let t = if i == last { at } else { i };
                assert(after[t] == entries[i]);
                lemma_position(after, other, t);
            }
            if has_key(after, other) {
                let i = position(after, other);
                let si = if i == at { last } else { i };
                assert(after[i] == entries[si]);
                lemma_position(entries, other, si);
            }
        }
    }
}

} // verus!
