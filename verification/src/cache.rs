//! The cache of L2 tables: a bounded map from the offset of a table in the
//! file to the bytes of the table, which drops the entry that was used
//! longest ago when it is full.

use lru_cache::LruCache;
use std::hash::BuildHasher;
use std::hash::Hash;
use vstd::prelude::*;

verus! {

/// `lru_cache::LruCache`. What a cache holds is known through
/// `lru_entries` and `lru_capacity` only.
#[verifier::external_type_specification]
#[verifier::external_body]
#[verifier::reject_recursive_types(K)]
#[verifier::reject_recursive_types(V)]
#[verifier::reject_recursive_types(S)]
pub struct ExLruCache<K: Eq + Hash, V, S: BuildHasher>(LruCache<K, V, S>);

/// What a cache holds: its keys with their values, from the entry that was
/// used longest ago to the one that was used last.
pub uninterp spec fn lru_entries(c: LruCache<u64, Vec<u8>>) -> Seq<(u64, Seq<u8>)>;

/// The number of entries that a cache was made to hold.
pub uninterp spec fn lru_capacity(c: LruCache<u64, Vec<u8>>) -> nat;

/// The value that `entries` holds for `key`, if it holds one.
pub open spec fn spec_lru_get(entries: Seq<(u64, Seq<u8>)>, key: u64) -> Option<Seq<u8>>
    decreases entries.len(),
{
    if entries.len() == 0 {
        None
    } else if entries.last().0 == key {
        Some(entries.last().1)
    } else {
        spec_lru_get(entries.drop_last(), key)
    }
}

/// `entries` without the entries of `key`.
pub open spec fn spec_lru_without(entries: Seq<(u64, Seq<u8>)>, key: u64) -> Seq<(u64, Seq<u8>)>
    decreases entries.len(),
{
    if entries.len() == 0 {
        entries
    } else if entries.last().0 == key {
        spec_lru_without(entries.drop_last(), key)
    } else {
        spec_lru_without(entries.drop_last(), key).push(entries.last())
    }
}

/// `entries` after a use of `key`: its entry, if there is one, has become
/// the last.
pub open spec fn spec_lru_touch(entries: Seq<(u64, Seq<u8>)>, key: u64) -> Seq<(u64, Seq<u8>)> {
    match spec_lru_get(entries, key) {
        Some(value) => spec_lru_without(entries, key).push((key, value)),
        None => entries,
    }
}

/// `entries` after `value` was put under `key` into a cache of the given
/// capacity: the new entry is the last, and where that made one entry too
/// many, the first has left.
pub open spec fn spec_lru_insert(
    entries: Seq<(u64, Seq<u8>)>,
    capacity: nat,
    key: u64,
    value: Seq<u8>,
) -> Seq<(u64, Seq<u8>)> {
    let pushed = spec_lru_without(entries, key).push((key, value));
    if pushed.len() > capacity {
        pushed.drop_first()
    } else {
        pushed
    }
}

/// `lru_cache::LruCache::new`: an empty cache that holds at most `capacity`
/// entries.
#[verifier::external_body]
pub(crate) fn lru_new(capacity: usize) -> (c: LruCache<u64, Vec<u8>>)
    ensures
        lru_entries(c) == Seq::<(u64, Seq<u8>)>::empty(),
        lru_capacity(c) == capacity,
{
    LruCache::new(capacity)
}

/// `lru_cache::LruCache::get_mut`: the value under `key`, if the cache
/// holds one; its entry then counts as the one used last. Nothing else
/// changes. The call does not panic.
#[verifier::external_body]
pub(crate) fn lru_get_mut<'a>(c: &'a mut LruCache<u64, Vec<u8>>, key: u64) -> (r: Option<
    &'a Vec<u8>,
>)
    ensures
        lru_capacity(*final(c)) == lru_capacity(*old(c)),
        lru_entries(*final(c)) == spec_lru_touch(lru_entries(*old(c)), key),
        r is Some <==> spec_lru_get(lru_entries(*old(c)), key) is Some,
        r matches Some(v) ==> spec_lru_get(lru_entries(*old(c)), key) == Some(v@),
    no_unwind
{
    match c.get_mut(&key) {
        Some(v) => Some(&*v),
        None => None,
    }
}

/// `lru_cache::LruCache::insert`: puts `value` under `key`, in place of a
/// value that was there; the entry counts as the one used last. Where the
/// cache then holds more than its capacity, the entry that was used longest
/// ago leaves. The call does not panic.
#[verifier::external_body]
pub(crate) fn lru_insert(c: &mut LruCache<u64, Vec<u8>>, key: u64, value: Vec<u8>)
    ensures
        lru_capacity(*final(c)) == lru_capacity(*old(c)),
        lru_entries(*final(c)) == spec_lru_insert(
            lru_entries(*old(c)),
            lru_capacity(*old(c)),
            key,
            value@,
        ),
    no_unwind
{
    c.insert(key, value);
}

/// What `entries` holds for `key` is one of its entries; and without the
/// entries of `key` it holds entries of its own only, fewer than before
/// where it held one for `key`.
pub proof fn lemma_lru_without(entries: Seq<(u64, Seq<u8>)>, key: u64)
    ensures
        spec_lru_get(entries, key) matches Some(value) ==> entries.contains((key, value)),
        forall|i: int|
            0 <= i < spec_lru_without(entries, key).len() ==> entries.contains(
                #[trigger] spec_lru_without(entries, key)[i],
            ),
        spec_lru_without(entries, key).len() <= entries.len(),
        spec_lru_get(entries, key) is Some ==> spec_lru_without(entries, key).len()
            < entries.len(),
    decreases entries.len(),
{
    if entries.len() > 0 {
        let front = entries.drop_last();
        let last = entries.last();
        lemma_lru_without(front, key);
        assert(entries.contains(last)) by {
            assert(entries[entries.len() - 1] == last);
        }
        assert forall|e: (u64, Seq<u8>)| front.contains(e) implies entries.contains(e) by {
            let j = choose|j: int| 0 <= j < front.len() && front[j] == e;
            assert(entries[j] == e);
        }
        if spec_lru_get(entries, key) is Some {
            let value = spec_lru_get(entries, key).unwrap();
            if last.0 == key {
                assert(last == (key, value));
            } else {
                assert(front.contains((key, value)));
            }
        }
        let rest = spec_lru_without(entries, key);
        assert forall|i: int| 0 <= i < rest.len() implies entries.contains(#[trigger] rest[i]) by {
            let before = spec_lru_without(front, key);
            if i < before.len() {
                assert(rest[i] == before[i]);
                assert(front.contains(before[i]));
            }
        }
    }
}

/// Every entry of a cache after a use of `key` was an entry before, and
/// there are no more entries than before.
pub proof fn lemma_lru_touch(entries: Seq<(u64, Seq<u8>)>, key: u64)
    ensures
        forall|i: int|
            0 <= i < spec_lru_touch(entries, key).len() ==> entries.contains(
                #[trigger] spec_lru_touch(entries, key)[i],
            ),
        spec_lru_touch(entries, key).len() <= entries.len(),
{
    lemma_lru_without(entries, key);
    let rest = spec_lru_without(entries, key);
    match spec_lru_get(entries, key) {
        Some(value) => {
            assert forall|j: int| 0 <= j < rest.push((key, value)).len() implies entries.contains(
                #[trigger] rest.push((key, value))[j],
            ) by {
                if j < rest.len() {
                    assert(rest.push((key, value))[j] == rest[j]);
                }
            }
        },
        None => {
            assert forall|j: int| 0 <= j < entries.len() implies entries.contains(
                #[trigger] entries[j],
            ) by {}
        },
    }
}

/// Every entry of a cache after `value` was put under `key` is the new
/// entry or was an entry before, and the cache holds no more than its
/// capacity where it did not before.
pub proof fn lemma_lru_insert(entries: Seq<(u64, Seq<u8>)>, capacity: nat, key: u64, value: Seq<u8>)
    ensures
        forall|i: int|
            0 <= i < spec_lru_insert(entries, capacity, key, value).len() ==> {
                let e = #[trigger] spec_lru_insert(entries, capacity, key, value)[i];
                e == (key, value) || entries.contains(e)
            },
        entries.len() <= capacity ==> spec_lru_insert(entries, capacity, key, value).len()
            <= capacity,
{
    lemma_lru_without(entries, key);
    let rest = spec_lru_without(entries, key);
    let pushed = rest.push((key, value));
    let after = spec_lru_insert(entries, capacity, key, value);
    assert forall|i: int| 0 <= i < after.len() implies {
        let e = #[trigger] after[i];
        e == (key, value) || entries.contains(e)
    } by {
        let j = if pushed.len() > capacity {
            i + 1
        } else {
            i
        };
        assert(after[i] == pushed[j]);
        if j < rest.len() {
            assert(pushed[j] == rest[j]);
        }
    }
}

} // verus!
