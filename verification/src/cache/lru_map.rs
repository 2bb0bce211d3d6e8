use lru::LruCache;
use vstd::prelude::*;

verus! {

/// `lru::LruCache`, carried as an opaque value.
#[verifier::external_type_specification]
#[verifier::external_body]
#[verifier::reject_recursive_types(K)]
#[verifier::reject_recursive_types(V)]
#[verifier::reject_recursive_types(S)]
pub struct ExLruCache<K, V, S>(LruCache<K, V, S>);

/// The hasher that an `LruCache` uses unless told otherwise, carried as an opaque value.
#[verifier::external_type_specification]
#[verifier::external_body]
pub struct ExDefaultHasher(lru::DefaultHasher);

/// The entries of an LRU map, least recently used first.
pub uninterp spec fn lru_entries(c: LruCache<u64, Vec<u8>>) -> Seq<(u64, Seq<u8>)>;

/// The number of entries the map was made to hold.
pub uninterp spec fn lru_cap(c: LruCache<u64, Vec<u8>>) -> nat;

/// `LruCache::unbounded`: an empty map whose capacity is the largest `usize`.
#[verifier::external_body]
pub(crate) fn lru_unbounded() -> (c: LruCache<u64, Vec<u8>>)
    ensures
        lru_entries(c) == Seq::<(u64, Seq<u8>)>::empty(),
        lru_cap(c) == usize::MAX,
{
    LruCache::unbounded()
}

/// `LruCache::len`: the number of entries.
#[verifier::external_body]
pub(crate) fn lru_len(c: &LruCache<u64, Vec<u8>>) -> (n: usize)
    ensures
        n == lru_entries(*c).len(),
{
    c.len()
}

/// The position of `id` among `entries`, if it has one.
pub open spec fn position_of(entries: Seq<(u64, Seq<u8>)>, id: u64) -> Option<int> {
    if exists|i: int| 0 <= i < entries.len() && entries[i].0 == id {
        Some(choose|i: int| 0 <= i < entries.len() && entries[i].0 == id)
    } else {
        None
    }
}

/// `entries` with the one at position `i` moved to the most recently used end.
pub open spec fn promoted(entries: Seq<(u64, Seq<u8>)>, i: int) -> Seq<(u64, Seq<u8>)> {
    entries.remove(i).push(entries[i])
}

/// `LruCache::peek`: the value stored under `id`, if any; the order of use is untouched.
#[verifier::external_body]
pub(crate) fn lru_peek(c: &LruCache<u64, Vec<u8>>, id: u64) -> (r: Option<&Vec<u8>>)
    ensures
        match position_of(lru_entries(*c), id) {
            Some(i) => r.is_some() && r.unwrap()@ == lru_entries(*c)[i].1,
            None => r.is_none(),
        },
{
    c.peek(&id)
}

/// `LruCache::get`: a copy of the value stored under `id`, if any; a key that is found
/// becomes the most recently used one.
#[verifier::external_body]
pub(crate) fn lru_get(c: &mut LruCache<u64, Vec<u8>>, id: u64) -> (r: Option<Vec<u8>>)
    ensures
        lru_cap(*final(c)) == lru_cap(*old(c)),
        match position_of(lru_entries(*old(c)), id) {
            Some(i) => r.is_some() && r.unwrap()@ == lru_entries(*old(c))[i].1
                && lru_entries(*final(c)) == promoted(lru_entries(*old(c)), i),
            None => r.is_none() && lru_entries(*final(c)) == lru_entries(*old(c)),
        },
{
    c.get(&id).cloned()
}

/// `LruCache::put`: stores `value` under `id` as the most recently used entry. A key
/// that is already present keeps its single entry with the new value; a new key in a
/// map that is at capacity displaces the least recently used entry.
#[verifier::external_body]
pub(crate) fn lru_put(c: &mut LruCache<u64, Vec<u8>>, id: u64, value: Vec<u8>)
    ensures
        lru_cap(*final(c)) == lru_cap(*old(c)),
        lru_entries(*final(c)) == match position_of(lru_entries(*old(c)), id) {
            Some(i) => lru_entries(*old(c)).remove(i).push((id, value@)),
            None => if lru_entries(*old(c)).len() < lru_cap(*old(c)) {
                lru_entries(*old(c)).push((id, value@))
            } else {
                lru_entries(*old(c)).drop_first().push((id, value@))
            },
        },
{
    c.put(id, value);
}

/// `LruCache::pop_lru`: removes the least recently used entry and returns it.
#[verifier::external_body]
pub(crate) fn lru_pop_lru(c: &mut LruCache<u64, Vec<u8>>) -> (r: Option<(u64, Vec<u8>)>)
    ensures
        lru_cap(*final(c)) == lru_cap(*old(c)),
        if lru_entries(*old(c)).len() == 0 {
            r.is_none() && lru_entries(*final(c)) == lru_entries(*old(c))
        } else {
            r.is_some() && r.unwrap().0 == lru_entries(*old(c))[0].0
                && r.unwrap().1@ == lru_entries(*old(c))[0].1
                && lru_entries(*final(c)) == lru_entries(*old(c)).drop_first()
        },
{
    c.pop_lru()
}

} // verus!
