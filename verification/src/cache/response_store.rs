use crate::cache::lru_map::{
    lru_entries, lru_cap, lru_get, lru_len, lru_peek, lru_pop_lru, lru_put, lru_unbounded,
    position_of, promoted,
};
use lru::LruCache;
use vstd::prelude::*;

verus! {

/// Bookkeeping cost that every entry is charged on top of its payload, in bytes.
pub const BASE_ENTRY_SIZE: usize = 32;

/// One stored response: the id it is kept under and its bytes.
pub type Entry = (u64, Seq<u8>);

/// The cost of an entry whose payload is `payload_len` bytes long.
pub open spec fn entry_size(payload_len: nat) -> nat {
    BASE_ENTRY_SIZE as nat + payload_len
}

/// The summed cost of `entries`.
pub open spec fn total_size(entries: Seq<Entry>) -> nat
    decreases entries.len(),
{
    if entries.len() == 0 {
        0
    } else {
        total_size(entries.drop_last()) + entry_size(entries.last().1.len())
    }
}

/// No id is stored twice.
pub open spec fn distinct_ids(entries: Seq<Entry>) -> bool {
    forall|i: int, j: int|
        0 <= i < entries.len() && 0 <= j < entries.len() && i != j ==> entries[i].0
            != entries[j].0
}

/// The ids of `entries`.
pub open spec fn ids_of(entries: Seq<Entry>) -> Set<u64> {
    Set::new(|id: u64| position_of(entries, id).is_some())
}

/// The cost of what `entries` holds under `id`; zero where it holds nothing.
pub open spec fn stored_size(entries: Seq<Entry>, id: u64) -> nat {
    match position_of(entries, id) {
        Some(i) => entry_size(entries[i].1.len()),
        None => 0,
    }
}

/// `entries` after `payload` has been stored under `id`: the new entry is the most
/// recently used one, and an earlier entry of that id is gone.
pub open spec fn stored(entries: Seq<Entry>, id: u64, payload: Seq<u8>) -> Seq<Entry> {
    match position_of(entries, id) {
        Some(i) => entries.remove(i).push((id, payload)),
        None => entries.push((id, payload)),
    }
}

/// `entries` after `id` has been read: a stored id becomes the most recently used one.
pub open spec fn touched(entries: Seq<Entry>, id: u64) -> Seq<Entry> {
    match position_of(entries, id) {
        Some(i) => promoted(entries, i),
        None => entries,
    }
}

/// What `entries` holds under `id`.
pub open spec fn payload_of(entries: Seq<Entry>, id: u64) -> Option<Seq<u8>> {
    match position_of(entries, id) {
        Some(i) => Some(entries[i].1),
        None => None,
    }
}

/// `after` is `before` once some stored response, namely `response`, has been read.
pub open spec fn is_hit(before: Seq<Entry>, after: Seq<Entry>, response: Seq<u8>) -> bool {
    exists|id: u64|
        payload_of(before, id) == Some(response) && after == #[trigger] touched(before, id)
}

/// `after` is `before` once `payload` has been stored under some id.
pub open spec fn is_stored_somewhere(
    before: Seq<Entry>,
    after: Seq<Entry>,
    payload: Seq<u8>,
) -> bool {
    exists|id: u64| after == #[trigger] stored(before, id, payload)
}

/// A position that `position_of` reports lies in the sequence and holds the id.
pub proof fn lemma_position_of(entries: Seq<Entry>, id: u64)
    ensures
        position_of(entries, id) matches Some(i) ==> 0 <= i < entries.len() && entries[i].0
            == id,
        position_of(entries, id) is None ==> forall|i: int|
            0 <= i < entries.len() ==> entries[i].0 != id,
{
}

/// Among distinct ids the position of an id is the only place that holds it.
pub proof fn lemma_position_unique(entries: Seq<Entry>, i: int)
    requires
        distinct_ids(entries),
        0 <= i < entries.len(),
    ensures
        position_of(entries, entries[i].0) == Some(i),
{
    lemma_position_of(entries, entries[i].0);
}

/// Appending an entry adds its cost.
pub proof fn lemma_total_size_push(entries: Seq<Entry>, e: Entry)
    ensures
        total_size(entries.push(e)) == total_size(entries) + entry_size(e.1.len()),
{
    assert(entries.push(e).drop_last() =~= entries);
}

/// Removing an entry takes its cost away.
pub proof fn lemma_total_size_remove(entries: Seq<Entry>, i: int)
    requires
        0 <= i < entries.len(),
    ensures
        total_size(entries.remove(i)) + entry_size(entries[i].1.len()) == total_size(entries),
    decreases entries.len(),
{
    if i == entries.len() - 1 {
        assert(entries.remove(i) =~= entries.drop_last());
    } else {
        lemma_total_size_remove(entries.drop_last(), i);
        assert(entries.remove(i).drop_last() =~= entries.drop_last().remove(i));
        assert(entries.remove(i).last() == entries.last());
    }
}

/// The summed cost of entries is that of the first `k` and that of the rest: what is
/// dropped from the front takes exactly its own cost away.
pub proof fn lemma_total_size_split(entries: Seq<Entry>, k: int)
    requires
        0 <= k <= entries.len(),
    ensures
        total_size(entries.take(k)) + total_size(entries.skip(k)) == total_size(entries),
    decreases entries.len() - k,
{
    if k == entries.len() {
        assert(entries.take(k) =~= entries);
        assert(entries.skip(k) =~= Seq::<Entry>::empty());
    } else {
        lemma_total_size_split(entries, k + 1);
        assert(entries.take(k + 1) =~= entries.take(k).push(entries[k]));
        lemma_total_size_push(entries.take(k), entries[k]);
        assert(entries.skip(k).remove(0) =~= entries.skip(k + 1));
        lemma_total_size_remove(entries.skip(k), 0);
    }
}

/// Every entry costs at least the base charge.
pub proof fn lemma_total_size_lower_bound(entries: Seq<Entry>)
    ensures
        total_size(entries) >= BASE_ENTRY_SIZE * entries.len(),
    decreases entries.len(),
{
    if entries.len() > 0 {
        lemma_total_size_lower_bound(entries.drop_last());
        assert(BASE_ENTRY_SIZE * entries.len() == BASE_ENTRY_SIZE * (entries.len() - 1)
            + BASE_ENTRY_SIZE) by (nonlinear_arith);
    }
}

/// Storing under an id keeps the ids distinct.
pub proof fn lemma_stored_distinct(entries: Seq<Entry>, id: u64, payload: Seq<u8>)
    requires
        distinct_ids(entries),
    ensures
        distinct_ids(stored(entries, id, payload)),
{
    lemma_position_of(entries, id);
    let after = stored(entries, id, payload);
    match position_of(entries, id) {
        Some(p) => {
            assert forall|i: int, j: int|
                0 <= i < after.len() && 0 <= j < after.len() && i != j implies after[i].0
                != after[j].0 by {
                let oi = if i < p { i } else { i + 1 };
                let oj = if j < p { j } else { j + 1 };
                if i < after.len() - 1 {
                    assert(after[i] == entries[oi]);
                }
                if j < after.len() - 1 {
                    assert(after[j] == entries[oj]);
                }
            }
        },
        None => {
            assert forall|i: int, j: int|
                0 <= i < after.len() && 0 <= j < after.len() && i != j implies after[i].0
                != after[j].0 by {
                if i < entries.len() {
                    assert(after[i] == entries[i]);
                }
                if j < entries.len() {
                    assert(after[j] == entries[j]);
                }
            }
        },
    }
}

/// Reading an id keeps the ids distinct and the summed cost the same.
pub proof fn lemma_touched(entries: Seq<Entry>, id: u64)
    requires
        distinct_ids(entries),
    ensures
        distinct_ids(touched(entries, id)),
        total_size(touched(entries, id)) == total_size(entries),
        touched(entries, id).len() == entries.len(),
{
    lemma_position_of(entries, id);
    match position_of(entries, id) {
        Some(p) => {
            assert(touched(entries, id) =~= stored(entries, id, entries[p].1));
            lemma_stored_distinct(entries, id, entries[p].1);
            lemma_total_size_remove(entries, p);
            lemma_total_size_push(entries.remove(p), entries[p]);
        },
        None => {},
    }
}

/// An id that has just been stored or read is the most recently used one: it stands
/// last, which is where the entries are popped last; and the entries before it keep
/// their order among themselves.
pub proof fn lemma_used_id_is_newest(entries: Seq<Entry>, id: u64, payload: Seq<u8>)
    ensures
        stored(entries, id, payload).last() == (id, payload),
        position_of(entries, id) matches Some(p) ==> touched(entries, id).last() == entries[p]
            && touched(entries, id).drop_last() == entries.remove(p) && stored(
            entries,
            id,
            payload,
        ).drop_last() == entries.remove(p),
        position_of(entries, id) is None ==> stored(entries, id, payload).drop_last() == entries,
{
    lemma_position_of(entries, id);
    match position_of(entries, id) {
        Some(p) => {
            assert(touched(entries, id).drop_last() =~= entries.remove(p));
            assert(stored(entries, id, payload).drop_last() =~= entries.remove(p));
        },
        None => {
            assert(stored(entries, id, payload).drop_last() =~= entries);
        },
    }
}

/// Storing under an id adds that id to the ids and no other.
pub proof fn lemma_ids_of_stored(entries: Seq<Entry>, id: u64, payload: Seq<u8>)
    ensures
        ids_of(stored(entries, id, payload)) == ids_of(entries).insert(id),
{
    lemma_position_of(entries, id);
    let after = stored(entries, id, payload);
    assert forall|x: u64| ids_of(after).contains(x) <==> ids_of(entries).insert(id).contains(
        x,
    ) by {
        lemma_position_of(entries, x);
        lemma_position_of(after, x);
        match position_of(entries, id) {
            Some(p) => {
                if let Some(i) = position_of(after, x) {
                    if i < after.len() - 1 {
                        assert(after[i] == entries[if i < p { i } else { i + 1 }]);
                    }
                }
                if x != id {
                    if let Some(i) = position_of(entries, x) {
                        assert(after[if i < p { i } else { i - 1 }] == entries[i]);
                    }
                } else {
                    assert(after[after.len() - 1].0 == id);
                }
            },
            None => {
                if let Some(i) = position_of(after, x) {
                    if i < entries.len() {
                        assert(after[i] == entries[i]);
                    }
                }
                if let Some(i) = position_of(entries, x) {
                    assert(after[i] == entries[i]);
                }
                assert(after[after.len() - 1].0 == id);
            },
        }
    }
    assert(ids_of(after) =~= ids_of(entries).insert(id));
}

/// Reading an id leaves the ids as they were.
pub proof fn lemma_ids_of_touched(entries: Seq<Entry>, id: u64)
    ensures
        ids_of(touched(entries, id)) == ids_of(entries),
{
    lemma_position_of(entries, id);
    match position_of(entries, id) {
        Some(p) => {
            assert(touched(entries, id) =~= stored(entries, id, entries[p].1));
            lemma_ids_of_stored(entries, id, entries[p].1);
            assert(ids_of(entries).insert(id) =~= ids_of(entries));
        },
        None => {},
    }
}

/// Among distinct ids, the entries behind the first `k` hold the ids of all but those
/// of the first `k`.
pub proof fn lemma_ids_of_skip(entries: Seq<Entry>, k: int)
    requires
        distinct_ids(entries),
        0 <= k <= entries.len(),
    ensures
        ids_of(entries.skip(k)) == ids_of(entries).difference(ids_of(entries.take(k))),
        distinct_ids(entries.skip(k)),
{
    let rest = entries.skip(k);
    let gone = entries.take(k);
    assert forall|x: u64| ids_of(rest).contains(x) <==> ids_of(entries).difference(
        ids_of(gone),
    ).contains(x) by {
        lemma_position_of(entries, x);
        lemma_position_of(rest, x);
        lemma_position_of(gone, x);
        if let Some(i) = position_of(rest, x) {
            assert(rest[i] == entries[i + k]);
            if let Some(j) = position_of(gone, x) {
                assert(gone[j] == entries[j]);
            }
        }
        if let Some(i) = position_of(entries, x) {
            if i < k {
                assert(gone[i] == entries[i]);
            } else {
                assert(rest[i - k] == entries[i]);
            }
        }
    }
    assert(ids_of(rest) =~= ids_of(entries).difference(ids_of(gone)));
    assert forall|i: int, j: int|
        0 <= i < rest.len() && 0 <= j < rest.len() && i != j implies rest[i].0
        != rest[j].0 by {
        assert(rest[i] == entries[i + k]);
        assert(rest[j] == entries[j + k]);
    }
}

/// One more entry taken from the front adds its id to the ids taken.
pub proof fn lemma_ids_of_take_next(entries: Seq<Entry>, k: int)
    requires
        0 <= k < entries.len(),
    ensures
        ids_of(entries.take(k + 1)) == ids_of(entries.take(k)).insert(entries[k].0),
{
    let more = entries.take(k + 1);
    let fewer = entries.take(k);
    assert forall|x: u64| ids_of(more).contains(x) <==> ids_of(fewer).insert(
        entries[k].0,
    ).contains(x) by {
        lemma_position_of(more, x);
        lemma_position_of(fewer, x);
        if let Some(i) = position_of(more, x) {
            if i < k {
                assert(fewer[i] == more[i]);
            }
        }
        if let Some(i) = position_of(fewer, x) {
            assert(fewer[i] == more[i]);
        }
        assert(more[k] == entries[k]);
    }
    assert(ids_of(more) =~= ids_of(fewer).insert(entries[k].0));
}

/// Dropping the least recently used entry keeps the ids distinct.
pub proof fn lemma_drop_first_distinct(entries: Seq<Entry>)
    requires
        distinct_ids(entries),
        entries.len() > 0,
    ensures
        distinct_ids(entries.drop_first()),
        entries.drop_first() =~= entries.remove(0),
{
    let rest = entries.drop_first();
    assert forall|i: int, j: int|
        0 <= i < rest.len() && 0 <= j < rest.len() && i != j implies rest[i].0
        != rest[j].0 by {
        assert(rest[i] == entries[i + 1]);
        assert(rest[j] == entries[j + 1]);
    }
}

/// The responses that the cache holds, each under the id it was stored with, in order
/// of use. It never drops an entry by itself: the owner pops the least recently used
/// one when it decides to.
pub struct ResponseStore {
    cache: LruCache<u64, Vec<u8>>,
    total_size_bytes: usize,
}

impl ResponseStore {
    /// The stored entries, least recently used first.
    pub closed spec fn entries(&self) -> Seq<Entry> {
        lru_entries(self.cache)
    }

    /// The running total of the entries' costs.
    pub closed spec fn byte_total(&self) -> nat {
        self.total_size_bytes as nat
    }

    /// The number of entries that the underlying map was made to hold.
    pub closed spec fn capacity(&self) -> nat {
        lru_cap(self.cache)
    }

    /// The store is well formed: the map is unbounded, no id is stored twice, and the
    /// running total is the summed cost of the entries.
    pub open spec fn wf(&self) -> bool {
        &&& self.capacity() == usize::MAX
        &&& distinct_ids(self.entries())
        &&& self.byte_total() == total_size(self.entries())
    }

    /// The ids that the store holds.
    pub open spec fn ids(&self) -> Set<u64> {
        ids_of(self.entries())
    }

    /// The running total still fits the machine word once `payload_len` bytes are
    /// stored under `id`.
    pub open spec fn fits(&self, id: u64, payload_len: nat) -> bool {
        self.byte_total() - stored_size(self.entries(), id) + entry_size(payload_len)
            <= usize::MAX
    }

    /// The running total is held in a machine word.
    pub proof fn lemma_byte_total_bounded(&self)
        ensures
            self.byte_total() <= usize::MAX,
    {
    }

    /// An empty store.
    pub fn new() -> (store: Self)
        ensures
            store.wf(),
            store.entries() == Seq::<Entry>::empty(),
            store.byte_total() == 0,
    {
        ResponseStore { cache: lru_unbounded(), total_size_bytes: 0 }
    }

    /// A copy of the bytes stored under `id`, which becomes the most recently used id.
    pub fn get(&mut self, id: u64) -> (response: Option<Vec<u8>>)
        requires
            old(self).wf(),
        ensures
            final(self).wf(),
            final(self).entries() == touched(old(self).entries(), id),
            final(self).byte_total() == old(self).byte_total(),
            match payload_of(old(self).entries(), id) {
                Some(payload) => response.is_some() && response.unwrap()@ == payload,
                None => response.is_none(),
            },
    {
        proof {
            lemma_touched(self.entries(), id);
        }
        lru_get(&mut self.cache, id)
    }

    /// Stores `response` under `id` as the most recently used entry, in place of what
    /// was stored there, and adjusts the running total by the difference in cost.
    pub fn put(&mut self, id: u64, response: Vec<u8>)
        requires
            old(self).wf(),
            old(self).fits(id, response@.len()),
        ensures
            final(self).wf(),
            final(self).entries() == stored(old(self).entries(), id, response@),
            final(self).byte_total() == old(self).byte_total() - stored_size(
                old(self).entries(),
                id,
            ) + entry_size(response@.len()),
    {
        let ghost before = self.entries();
        let ghost payload = response@;
        proof {
            lemma_position_of(before, id);
            lemma_total_size_lower_bound(before);
            lemma_stored_distinct(before, id, payload);
            match position_of(before, id) {
                Some(p) => {
                    lemma_total_size_remove(before, p);
                    lemma_total_size_push(before.remove(p), (id, payload));
                },
                None => {
                    lemma_total_size_push(before, (id, payload));
                },
            }
        }
        let size_bytes = Self::calculate_entry_size(&response);
        let old_size = match lru_peek(&self.cache, id) {
            Some(existing) => Self::calculate_entry_size(existing),
            None => 0,
        };
        lru_put(&mut self.cache, id, response);
        self.total_size_bytes = self.total_size_bytes - old_size + size_bytes;
    }

    /// Removes the least recently used entry, takes its cost off the running total and
    /// returns its id.
    pub fn pop(&mut self) -> (popped: Option<u64>)
        requires
            old(self).wf(),
        ensures
            final(self).wf(),
            old(self).entries().len() == 0 ==> popped.is_none() && final(self).entries()
                == old(self).entries() && final(self).byte_total() == old(self).byte_total(),
            old(self).entries().len() > 0 ==> popped == Some(old(self).entries()[0].0)
                && final(self).entries() == old(self).entries().drop_first()
                && final(self).byte_total() == old(self).byte_total() - entry_size(
                old(self).entries()[0].1.len(),
            ),
    {
        let ghost before = self.entries();
        proof {
            if before.len() > 0 {
                lemma_drop_first_distinct(before);
                lemma_total_size_remove(before, 0);
            }
        }
        match lru_pop_lru(&mut self.cache) {
            Some((id, response)) => {
                let size_bytes = Self::calculate_entry_size(&response);
                self.total_size_bytes = self.total_size_bytes - size_bytes;
                Some(id)
            },
            None => None,
        }
    }

    /// The number of stored entries.
    pub fn len(&self) -> (n: usize)
        ensures
            n == self.entries().len(),
    {
        lru_len(&self.cache)
    }

    /// The running total of the entries' costs, in bytes.
    pub fn memory_usage_bytes(&self) -> (n: usize)
        ensures
            n == self.byte_total(),
    {
        self.total_size_bytes
    }

    /// Whether the running total stays within the machine word once `payload_len` bytes
    /// are stored under an id; then they also fit under an id that is already there.
    pub fn has_room_for(&self, payload_len: usize) -> (room: bool)
        ensures
            room == (self.byte_total() + entry_size(payload_len as nat) <= usize::MAX),
            room ==> forall|id: u64| self.fits(id, payload_len as nat),
    {
        payload_len <= usize::MAX - BASE_ENTRY_SIZE && self.total_size_bytes <= usize::MAX
            - BASE_ENTRY_SIZE - payload_len
    }

    /// The cost of an entry that holds `response`.
    pub fn calculate_entry_size(response: &Vec<u8>) -> (size: usize)
        requires
            entry_size(response@.len()) <= usize::MAX,
        ensures
            size == entry_size(response@.len()),
    {
        BASE_ENTRY_SIZE + response.len()
    }
}

} // verus!
