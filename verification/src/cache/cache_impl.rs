use crate::cache::cache::Cache;
use crate::cache::error::CacheError;
use crate::cache::response_store::{
    distinct_ids, entry_size, ids_of, lemma_ids_of_skip, lemma_ids_of_stored,
    lemma_ids_of_take_next, lemma_ids_of_touched, lemma_position_of, lemma_position_unique,
    lemma_total_size_split,
    lemma_stored_distinct, payload_of, stored, stored_size, total_size, touched, Entry,
    ResponseStore,
    BASE_ENTRY_SIZE,
};
use crate::cache::semantic_store::{is_answer, SemanticStore};
use crate::cache::similarity::{Similarity, EXACT_MATCH_BITS};
use vstd::prelude::*;

verus! {

/// How many neighbours a lookup asks the index for.
pub const TOP_K: usize = 1;

/// Rule that decides when the cache counts as full.
#[derive(Clone, Copy, Debug)]
pub enum EvictionPolicy {
    /// Full once the response store holds at least this many entries.
    EntryLimit(usize),
    /// Full once the responses and the index together take at least this many bytes.
    ByteLimit(usize),
}

impl EvictionPolicy {
    /// The limit is reached by a cache of `entries` responses that take `store_bytes`
    /// bytes beside an index of `index_bytes` bytes.
    pub open spec fn reached(self, entries: nat, store_bytes: nat, index_bytes: nat) -> bool {
        match self {
            EvictionPolicy::EntryLimit(limit) => entries >= limit,
            EvictionPolicy::ByteLimit(limit) => store_bytes + index_bytes >= limit,
        }
    }

    /// Whether the limit is reached at the given sizes.
    pub fn is_reached(&self, entries: usize, store_bytes: usize, index_bytes: usize) -> (full:
        bool)
        ensures
            full == self.reached(entries as nat, store_bytes as nat, index_bytes as nat),
    {
        match self {
            EvictionPolicy::EntryLimit(limit) => entries >= *limit,
            EvictionPolicy::ByteLimit(limit) => {
                let used: u128 = store_bytes as u128 + index_bytes as u128;
                used >= *limit as u128
            },
        }
    }
}

/// The state of the index before step `i` of a run that passes through `states`.
pub open spec fn state_at<S>(states: Seq<S>, i: int) -> S {
    states[i]
}

/// `index_bytes` is what `index` reports of the memory it takes.
pub open spec fn is_usage_report<S: SemanticStore>(index: S, index_bytes: usize) -> bool {
    call_ensures(S::memory_usage_bytes, (&index,), index_bytes)
}

/// `full` is what a test of `policy` gives for a store of `entries` responses that
/// cost `store_bytes` bytes, beside the index `index`. An entry limit is held against
/// the number of responses. For a byte limit the index is asked what memory it takes,
/// and its report is added to the store's bytes.
pub open spec fn is_fullness_test<S: SemanticStore>(
    policy: EvictionPolicy,
    entries: nat,
    store_bytes: nat,
    index: S,
    full: bool,
) -> bool {
    match policy {
        EvictionPolicy::EntryLimit(limit) => full == (entries >= limit),
        EvictionPolicy::ByteLimit(limit) => exists|index_bytes: usize|
            #[trigger] is_usage_report(index, index_bytes) && full == (store_bytes
                + index_bytes >= limit),
    }
}

/// What an eviction run leaves of `entries` under an entry limit: the newest entries,
/// one fewer than the limit.
pub open spec fn kept_under_entry_limit(entries: Seq<Entry>, limit: nat) -> Seq<Entry> {
    if entries.len() < limit {
        entries
    } else if limit == 0 {
        entries.skip(entries.len() as int)
    } else {
        entries.skip(entries.len() - (limit - 1))
    }
}

/// What a lookup makes of the index's answer `found`: an error of the index is the
/// lookup's error; no id found is a miss; else the response under the first id found is
/// the answer, and that id becomes the most recently used one. An id without a response
/// is a miss too. `before` and `after` are the stored responses before and after.
pub open spec fn is_lookup_of(
    before: Seq<Entry>,
    after: Seq<Entry>,
    found: Result<Vec<u64>, CacheError>,
    result: Result<Option<Vec<u8>>, CacheError>,
) -> bool {
    match found {
        Err(e) => result == Err::<Option<Vec<u8>>, CacheError>(e) && after == before,
        Ok(ids) => if ids@.len() == 0 {
            result == Ok::<Option<Vec<u8>>, CacheError>(None) && after == before
        } else {
            &&& after == touched(before, ids@[0])
            &&& match payload_of(before, ids@[0]) {
                Some(payload) => result matches Ok(Some(response)) && response@ == payload,
                None => result == Ok::<Option<Vec<u8>>, CacheError>(None),
            }
        },
    }
}

/// How a lookup went.
#[derive(Debug, Clone, PartialEq, Eq)]
pub enum Lookup {
    /// The index found a stored prompt, and this is its response.
    Hit(Vec<u8>),
    /// The index found nothing similar enough.
    Miss,
    /// The index found this id, but no response is stored under it: index and store
    /// disagree. To those who asked this is a miss.
    Unresolved(u64),
}

/// What a lookup reports for the ids `found` among the stored responses `before`,
/// which it leaves as `after`: nothing found is a miss; else the first id found
/// decides, and becomes the most recently used one if it has a response.
pub open spec fn is_outcome_of(
    before: Seq<Entry>,
    after: Seq<Entry>,
    found: Seq<u64>,
    outcome: Lookup,
) -> bool {
    if found.len() == 0 {
        outcome == Lookup::Miss && after == before
    } else {
        &&& after == touched(before, found[0])
        &&& match payload_of(before, found[0]) {
            Some(payload) => outcome matches Lookup::Hit(response) && response@ == payload,
            None => outcome == Lookup::Unresolved(found[0]),
        }
    }
}

/// What an update makes of the index's answer `found`: an error of the index is the
/// update's error; no id found changes nothing and is reported as `false`; else
/// `payload` is stored under the first id found, which is reported as `true`.
pub open spec fn is_update_of(
    before: Seq<Entry>,
    after: Seq<Entry>,
    found: Result<Vec<u64>, CacheError>,
    payload: Seq<u8>,
    result: Result<bool, CacheError>,
) -> bool {
    match found {
        Err(e) => result == Err::<bool, CacheError>(e) && after == before,
        Ok(ids) => if ids@.len() == 0 {
            result == Ok::<bool, CacheError>(false) && after == before
        } else {
            result == Ok::<bool, CacheError>(true) && after == stored(before, ids@[0], payload)
        },
    }
}

/// The index's answer `found` names no id, or its first id is one that `entries` holds.
pub open spec fn names_stored_id(entries: Seq<Entry>, found: Result<Vec<u64>, CacheError>) -> bool {
    match found {
        Ok(ids) => ids@.len() > 0 ==> ids_of(entries).contains(ids@[0]),
        Err(_) => true,
    }
}

/// The ids `ids` without those of `gone`.
pub open spec fn without_ids_of(ids: Set<u64>, gone: Seq<Entry>) -> Set<u64> {
    ids.difference(ids_of(gone))
}

/// Under an entry limit an eviction run leaves fewer entries than the limit, and so
/// never more than it; a store that was below the limit is left as it was.
pub proof fn lemma_entry_limit_bounds(entries: Seq<Entry>, limit: nat)
    ensures
        kept_under_entry_limit(entries, limit).len() <= limit,
        limit > 0 ==> kept_under_entry_limit(entries, limit).len() < limit,
        limit == 0 ==> kept_under_entry_limit(entries, limit).len() == 0,
        entries.len() < limit ==> kept_under_entry_limit(entries, limit) == entries,
{
}

/// Storing the same payload under the same id a second time changes nothing.
pub proof fn lemma_stored_twice(entries: Seq<Entry>, id: u64, payload: Seq<u8>)
    requires
        distinct_ids(entries),
    ensures
        stored(stored(entries, id, payload), id, payload) == stored(entries, id, payload),
        stored_size(stored(entries, id, payload), id) == entry_size(payload.len()),
{
    let once = stored(entries, id, payload);
    lemma_stored_distinct(entries, id, payload);
    lemma_position_of(entries, id);
    let last = once.len() - 1;
    assert(once[last] == (id, payload));
    lemma_position_unique(once, last);
    assert(once.remove(last).push((id, payload)) =~= once);
}

/// The semantic cache: responses kept under ids in a store ordered by use, found again
/// through a vector index that maps an embedding to the ids of the nearest stored ones.
pub struct CacheImpl<S: SemanticStore> {
    similarity_threshold: Similarity,
    response_store: ResponseStore,
    semantic_store: S,
    id_generator: u64,
    eviction_policy: EvictionPolicy,
    indexed: Ghost<Set<u64>>,
}

impl<S: SemanticStore> CacheImpl<S> {
    /// The id that the next insertion will use.
    pub closed spec fn next_id(&self) -> u64 {
        self.id_generator
    }

    /// The eviction policy that the cache was made with.
    pub closed spec fn policy(&self) -> EvictionPolicy {
        self.eviction_policy
    }

    /// The similarity from which a stored prompt counts as a hit.
    pub closed spec fn threshold(&self) -> Similarity {
        self.similarity_threshold
    }

    /// The index that the cache searches.
    pub closed spec fn index(&self) -> S {
        self.semantic_store
    }

    /// The ids that the index has taken and not given up since, as its answers to this
    /// cache tell.
    pub closed spec fn indexed_ids(&self) -> Set<u64> {
        self.indexed@
    }

    /// The threshold of a well-formed cache lies in [0, 1].
    pub proof fn lemma_threshold(&self)
        requires
            self.wf(),
        ensures
            self.threshold().in_unit_interval(),
    {
    }

    /// Index and store agree: the ids that the index holds are the ids that have a
    /// response.
    pub open spec fn consistent(&self) -> bool {
        self.indexed_ids() == ids_of(self.entries())
    }

    /// In a consistent cache an id that the index holds resolves to a response, and a
    /// response is held by the index.
    pub proof fn lemma_consistent_resolves(&self, id: u64)
        requires
            self.consistent(),
        ensures
            self.indexed_ids().contains(id) <==> payload_of(self.entries(), id) is Some,
    {
    }

    /// A cache over the given index and store. The threshold must lie in [0, 1].
    pub fn new(
        semantic_store: S,
        response_store: ResponseStore,
        similarity_threshold: Similarity,
        eviction_policy: EvictionPolicy,
    ) -> (cache: Self)
        requires
            response_store.wf(),
            similarity_threshold.in_unit_interval(),
        ensures
            cache.wf(),
            cache.entries() == response_store.entries(),
            cache.byte_total() == response_store.byte_total(),
            cache.next_id() == 0,
            cache.policy() == eviction_policy,
            cache.threshold() == similarity_threshold,
            cache.index() == semantic_store,
            cache.indexed_ids() == Set::<u64>::empty(),
            response_store.entries().len() == 0 ==> cache.consistent(),
    {
        proof {
            if response_store.entries().len() == 0 {
                assert(ids_of(response_store.entries()) =~= Set::<u64>::empty());
            }
        }
        CacheImpl {
            similarity_threshold,
            response_store,
            semantic_store,
            id_generator: 0,
            eviction_policy,
            indexed: Ghost(Set::empty()),
        }
    }

    /// The number of stored responses.
    pub fn len(&self) -> (n: usize)
        ensures
            n == self.entries().len(),
    {
        self.response_store.len()
    }

    /// The running total of the stored responses' costs, in bytes.
    pub fn memory_usage_bytes(&self) -> (n: usize)
        ensures
            n == self.byte_total(),
    {
        self.response_store.memory_usage_bytes()
    }

    /// Whether the running total stays within the machine word once a response of
    /// `response_len` bytes is added: what `insert` and `try_update` ask of their caller.
    pub fn has_room_for(&self, response_len: usize) -> (room: bool)
        ensures
            room == (self.byte_total() + entry_size(response_len as nat) <= usize::MAX),
    {
        let total = self.response_store.memory_usage_bytes();
        response_len <= usize::MAX - BASE_ENTRY_SIZE && total <= usize::MAX - BASE_ENTRY_SIZE
            - response_len
    }

    /// A copy of the response stored under `id`, which becomes the most recently used
    /// one.
    pub fn response(&mut self, id: u64) -> (response: Option<Vec<u8>>)
        requires
            old(self).wf(),
        ensures
            final(self).wf(),
            final(self).entries() == touched(old(self).entries(), id),
            final(self).byte_total() == old(self).byte_total(),
            final(self).next_id() == old(self).next_id(),
            final(self).policy() == old(self).policy(),
            final(self).threshold() == old(self).threshold(),
            final(self).indexed_ids() == old(self).indexed_ids(),
            final(self).index() == old(self).index(),
            old(self).consistent() ==> final(self).consistent(),
            match payload_of(old(self).entries(), id) {
                Some(payload) => response.is_some() && response.unwrap()@ == payload,
                None => response.is_none(),
            },
    {
        proof {
            lemma_ids_of_touched(self.entries(), id);
        }
        self.response_store.get(id)
    }

    /// Whether the eviction policy counts the cache as full. An entry limit is held
    /// against the number of stored responses alone. A byte limit is held against the
    /// stored bytes and what the index reports of itself, so a cache whose responses
    /// alone reach the limit is full whatever the index reports.
    pub fn is_full(&self) -> (full: bool)
        ensures
            is_fullness_test(
                self.policy(),
                self.entries().len(),
                self.byte_total(),
                self.index(),
                full,
            ),
            match self.policy() {
                EvictionPolicy::EntryLimit(limit) => full == (self.entries().len() >= limit),
                EvictionPolicy::ByteLimit(limit) => self.byte_total() >= limit ==> full,
            },
    {
        match self.eviction_policy {
            EvictionPolicy::EntryLimit(_) => self.eviction_policy.is_reached(
                self.response_store.len(),
                0,
                0,
            ),
            EvictionPolicy::ByteLimit(_) => {
                let index_bytes = self.semantic_store.memory_usage_bytes();
                assert(is_usage_report(self.index(), index_bytes));
                self.eviction_policy.is_reached(
                    0,
                    self.response_store.memory_usage_bytes(),
                    index_bytes,
                )
            },
        }
    }

    /// How a lookup goes for which the index has found `found`: a miss if it found
    /// nothing; else a hit with the response kept under the first id, which becomes the
    /// most recently used one; or, if that id has no response, the report that index
    /// and store disagree on it.
    pub fn lookup_found(&mut self, found: &Vec<u64>) -> (outcome: Lookup)
        requires
            old(self).wf(),
        ensures
            final(self).wf(),
            final(self).byte_total() == old(self).byte_total(),
            final(self).next_id() == old(self).next_id(),
            final(self).policy() == old(self).policy(),
            final(self).threshold() == old(self).threshold(),
            final(self).indexed_ids() == old(self).indexed_ids(),
            final(self).index() == old(self).index(),
            old(self).consistent() ==> final(self).consistent(),
            is_outcome_of(old(self).entries(), final(self).entries(), found@, outcome),
    {
        if found.len() == 0 {
            return Lookup::Miss;
        }
        let id = found[0];
        match self.response(id) {
            Some(response) => Lookup::Hit(response),
            None => Lookup::Unresolved(id),
        }
    }

    /// Looks up the response stored for the prompt nearest to `embedding` and reports
    /// how it went: the index is asked for the nearest id at the configured threshold,
    /// and its answer decides, as `lookup_found` says. An error of the index is the
    /// lookup's error and leaves the cache as it was.
    pub fn lookup(&mut self, embedding: &S::Embedding) -> (result: Result<Lookup, CacheError>)
        requires
            old(self).wf(),
        ensures
            final(self).wf(),
            final(self).byte_total() == old(self).byte_total(),
            final(self).next_id() == old(self).next_id(),
            final(self).policy() == old(self).policy(),
            final(self).threshold() == old(self).threshold(),
            final(self).indexed_ids() == old(self).indexed_ids(),
            final(self).index() == old(self).index(),
            old(self).consistent() ==> final(self).consistent(),
            exists|found: Result<Vec<u64>, CacheError>|
                #[trigger] is_answer(
                    old(self).index(),
                    embedding,
                    TOP_K,
                    old(self).threshold(),
                    found,
                ) && match found {
                    Ok(ids) => result matches Ok(outcome) && is_outcome_of(
                        old(self).entries(),
                        final(self).entries(),
                        ids@,
                        outcome,
                    ),
                    Err(e) => result == Err::<Lookup, CacheError>(e) && final(self).entries()
                        == old(self).entries(),
                },
    {
        let answer = self.semantic_store.get(embedding, TOP_K, self.similarity_threshold);
        assert(is_answer(self.index(), embedding, TOP_K, self.threshold(), answer));
        match answer {
            Ok(found) => Ok(self.lookup_found(&found)),
            Err(e) => Err(e),
        }
    }

    /// The answer to a lookup for which the index has found `found`: the response kept
    /// under the first id, which becomes the most recently used one. Nothing found, or
    /// an id without a response, is a miss.
    pub fn response_for(&mut self, found: &Vec<u64>) -> (response: Option<Vec<u8>>)
        requires
            old(self).wf(),
        ensures
            final(self).wf(),
            final(self).byte_total() == old(self).byte_total(),
            final(self).next_id() == old(self).next_id(),
            final(self).policy() == old(self).policy(),
            final(self).threshold() == old(self).threshold(),
            final(self).indexed_ids() == old(self).indexed_ids(),
            final(self).index() == old(self).index(),
            old(self).consistent() ==> final(self).consistent(),
            found@.len() == 0 ==> response.is_none(),
            found@.len() == 0 ==> final(self).entries() == old(self).entries(),
            found@.len() > 0 ==> final(self).entries() == touched(old(self).entries(), found@[0])
                && match payload_of(old(self).entries(), found@[0]) {
                Some(payload) => response.is_some() && response.unwrap()@ == payload,
                None => response.is_none(),
            },
    {
        if found.len() == 0 {
            return None;
        }
        let id = found[0];
        self.response(id)
    }

    /// One step of an eviction run. The policy is tested; if it counts the cache as
    /// full and a response is left, the least recently used response is popped and the
    /// index is told to delete its id, and the step reports `true`. Else nothing changes
    /// and the step reports `false`. A deletion that the index refuses is the step's
    /// error: the response is gone by then, and the index still counts as holding the id.
    pub fn evict_step(&mut self) -> (step: Result<bool, CacheError>)
        requires
            old(self).wf(),
        ensures
            final(self).wf(),
            final(self).next_id() == old(self).next_id(),
            final(self).policy() == old(self).policy(),
            final(self).threshold() == old(self).threshold(),
            exists|full: bool|
                #[trigger] is_fullness_test(
                    old(self).policy(),
                    old(self).entries().len(),
                    total_size(old(self).entries()),
                    old(self).index(),
                    full,
                ) && if full && old(self).entries().len() > 0 {
                    &&& final(self).entries() == old(self).entries().drop_first()
                    &&& final(self).byte_total() == old(self).byte_total() - entry_size(
                        old(self).entries()[0].1.len(),
                    )
                    &&& exists|m: &mut S, answer: Result<(), CacheError>|
                        #[trigger] call_ensures(
                            S::delete,
                            (m, old(self).entries()[0].0),
                            answer,
                        ) && *m == old(self).index() && *final(m) == final(self).index()
                            && match answer {
                            Ok(()) => {
                                &&& step == Ok::<bool, CacheError>(true)
                                &&& final(self).indexed_ids() == old(self).indexed_ids().remove(
                                    old(self).entries()[0].0,
                                )
                            },
                            Err(e) => {
                                &&& step == Err::<bool, CacheError>(e)
                                &&& final(self).indexed_ids() == old(self).indexed_ids()
                            },
                        }
                } else {
                    &&& step == Ok::<bool, CacheError>(false)
                    &&& final(self).entries() == old(self).entries()
                    &&& final(self).byte_total() == old(self).byte_total()
                    &&& final(self).index() == old(self).index()
                    &&& final(self).indexed_ids() == old(self).indexed_ids()
                },
    {
        let full = self.is_full();
        proof {
            self.lemma_wf();
        }
        if !full {
            return Ok(false);
        }
        match self.response_store.pop() {
            Some(evicted_id) => match self.semantic_store.delete(evicted_id) {
                Ok(()) => {
                    self.indexed = Ghost(self.indexed@.remove(evicted_id));
                    Ok(true)
                },
                Err(e) => Err(e),
            },
            None => Ok(false),
        }
    }

    /// Pops least recently used responses, and has the index delete each, for as long
    /// as the policy counts the cache as full and a response is left: a run of steps,
    /// each as `evict_step` says, that ends with the first step that evicts nothing or
    /// fails. A deletion that the index refuses ends the run with that error.
    pub fn evict(&mut self) -> (result: Result<(), CacheError>)
        requires
            old(self).wf(),
        ensures
            final(self).wf(),
            final(self).next_id() == old(self).next_id(),
            final(self).policy() == old(self).policy(),
            final(self).threshold() == old(self).threshold(),
            ({
                let before = old(self).entries();
                let after = final(self).entries();
                let popped = before.len() - after.len();
                &&& 0 <= popped
                &&& after == before.skip(popped)
                &&& popped == 0 ==> final(self).byte_total() == old(self).byte_total()
                &&& result is Ok ==> final(self).indexed_ids() == without_ids_of(
                    old(self).indexed_ids(),
                    before.take(popped),
                )
                &&& result is Err ==> popped > 0
                &&& result is Err ==> final(self).indexed_ids() == without_ids_of(
                    old(self).indexed_ids(),
                    before.take(popped - 1),
                )
                &&& result is Ok ==> match final(self).policy() {
                    EvictionPolicy::EntryLimit(limit) => after == kept_under_entry_limit(
                        before,
                        limit as nat,
                    ),
                    EvictionPolicy::ByteLimit(limit) => after.len() == 0
                        || final(self).byte_total() < limit,
                }
            }),
            final(self).byte_total() <= old(self).byte_total(),
            final(self).byte_total() == old(self).byte_total() - total_size(
                old(self).entries().take(
                    old(self).entries().len() - final(self).entries().len(),
                ),
            ),
            old(self).consistent() && result is Ok ==> final(self).consistent(),
            exists|states: Seq<Self>|
                {
                    &&& #[trigger] states.len() >= 1
                    &&& states[0] == *old(self)
                    &&& forall|i: int|
                        0 <= i < states.len() - 1 ==> {
                            &&& #[trigger] state_at(states, i) == states[i]
                            &&& exists|me: &mut Self|
                                #[trigger] call_ensures(
                                    Self::evict_step,
                                    (me,),
                                    Ok::<bool, CacheError>(true),
                                ) && *me == states[i] && *final(me) == states[i + 1]
                        }
                    &&& exists|me: &mut Self, last: Result<bool, CacheError>|
                        #[trigger] call_ensures(Self::evict_step, (me,), last) && *me
                            == states[states.len() - 1] && *final(me) == *final(self) && match
                            last {
                            Ok(more) => !more && result is Ok,
                            Err(e) => result == Err::<(), CacheError>(e),
                        }
                },
    {
        let ghost start = self.entries();
        let ghost start_indexed = self.indexed_ids();
        let ghost mut k: int = 0;
        let ghost mut trace: Seq<Self> = seq![*self];
        proof {
            self.lemma_wf();
            assert(start.skip(0) =~= start);
            assert(ids_of(start.take(0)) =~= Set::<u64>::empty());
            assert(start_indexed.difference(Set::<u64>::empty()) =~= start_indexed);
        }
        loop
            invariant
                self.wf(),
                self.next_id() == old(self).next_id(),
                self.policy() == old(self).policy(),
                self.threshold() == old(self).threshold(),
                start == old(self).entries(),
                distinct_ids(start),
                old(self).byte_total() == total_size(start),
                start_indexed == old(self).indexed_ids(),
                0 <= k <= start.len(),
                self.entries() == start.skip(k),
                self.entries().len() == start.len() - k,
                self.byte_total() <= old(self).byte_total(),
                k == 0 ==> self.byte_total() == old(self).byte_total(),
                self.indexed_ids() == start_indexed.difference(ids_of(start.take(k))),
                self.policy() matches EvictionPolicy::EntryLimit(limit) ==> (k == 0
                    || start.len() - k + 1 >= limit),
                trace.len() == k + 1,
                trace[0] == *old(self),
                trace[k] == *self,
                forall|i: int|
                    0 <= i < k ==> {
                        &&& #[trigger] state_at(trace, i) == trace[i]
                        &&& exists|me: &mut Self|
                            #[trigger] call_ensures(
                                Self::evict_step,
                                (me,),
                                Ok::<bool, CacheError>(true),
                            ) && *me == trace[i] && *final(me) == trace[i + 1]
                    },
            decreases self.entries().len(),
        {
            let ghost before = self.entries();
            let ghost cache_before = *self;
            let step = self.evict_step();
            proof {
                self.lemma_wf();
                cache_before.lemma_wf();
                if before.len() > 0 {
                    assert(before.drop_first() =~= start.skip(k + 1));
                    assert(before[0] == start[k]);
                    lemma_ids_of_take_next(start, k);
                    assert(start_indexed.difference(ids_of(start.take(k))).remove(start[k].0)
                        =~= start_indexed.difference(ids_of(start.take(k + 1))));
                }
            }
            match step {
                Ok(true) => {
                    proof {
                        let earlier = trace;
                        trace = trace.push(*self);
                        assert forall|i: int| 0 <= i < k + 1 implies {
                            &&& #[trigger] state_at(trace, i) == trace[i]
                            &&& exists|me: &mut Self|
                                #[trigger] call_ensures(
                                    Self::evict_step,
                                    (me,),
                                    Ok::<bool, CacheError>(true),
                                ) && *me == trace[i] && *final(me) == trace[i + 1]
                        } by {
                            if i < k {
                                assert(state_at(earlier, i) == earlier[i]);
                                assert(trace[i] == earlier[i]);
                                assert(trace[i + 1] == earlier[i + 1]);
                            } else {
                                assert(trace[k] == cache_before);
                                assert(trace[k + 1] == *self);
                            }
                        }
                        k = k + 1;
                    }
                },
                Ok(false) => {
                    proof {
                        lemma_ids_of_skip(start, k);
                        lemma_total_size_split(start, k);
                        assert(trace[trace.len() - 1] == cache_before);
                    }
                    return Ok(());
                },
                Err(e) => {
                    proof {
                        lemma_total_size_split(start, k + 1);
                        assert(trace[trace.len() - 1] == cache_before);
                    }
                    return Err(e);
                },
            }
        }
    }

    /// Replaces the response under the first id of `found` by `response` and reports
    /// that it did; with nothing found it changes nothing and reports that.
    pub fn update_found(&mut self, found: &Vec<u64>, response: Vec<u8>) -> (updated: bool)
        requires
            old(self).wf(),
            old(self).byte_total() + entry_size(response@.len()) <= usize::MAX,
        ensures
            final(self).wf(),
            final(self).next_id() == old(self).next_id(),
            final(self).policy() == old(self).policy(),
            final(self).threshold() == old(self).threshold(),
            final(self).indexed_ids() == old(self).indexed_ids(),
            final(self).index() == old(self).index(),
            updated == (found@.len() > 0),
            final(self).entries() == if found@.len() > 0 {
                stored(old(self).entries(), found@[0], response@)
            } else {
                old(self).entries()
            },
            final(self).byte_total() == if found@.len() > 0 {
                old(self).byte_total() - stored_size(old(self).entries(), found@[0])
                    + entry_size(response@.len())
            } else {
                old(self).byte_total() as int
            },
            old(self).consistent() && (found@.len() > 0 ==> ids_of(old(self).entries()).contains(
                found@[0],
            )) ==> final(self).consistent(),
    {
        if found.len() == 0 {
            return false;
        }
        let id = found[0];
        proof {
            lemma_ids_of_stored(self.entries(), id, response@);
            assert(ids_of(self.entries()).contains(id) ==> ids_of(self.entries()).insert(id)
                =~= ids_of(self.entries()));
        }
        self.response_store.put(id, response);
        true
    }

}

impl<S: SemanticStore> Cache for CacheImpl<S> {
    type Embedding = S::Embedding;

    /// The cache is well formed: its store is, and its threshold lies in [0, 1].
    closed spec fn wf(&self) -> bool {
        &&& self.response_store.wf()
        &&& self.similarity_threshold.in_unit_interval()
    }

    closed spec fn entries(&self) -> Seq<Entry> {
        self.response_store.entries()
    }

    closed spec fn byte_total(&self) -> nat {
        self.response_store.byte_total()
    }

    proof fn lemma_wf(&self) {
        self.response_store.lemma_byte_total_bounded();
    }

    /// The response stored for the prompt nearest to `embedding`, if one is at least as
    /// similar as the threshold asks. The index is asked for the nearest id; what it
    /// answers decides, as `response_for` says. A response that is returned becomes the
    /// most recently used one.
    fn get_if_present(&mut self, embedding: &S::Embedding) -> (result: Result<
        Option<Vec<u8>>,
        CacheError,
    >)
        ensures
            final(self).next_id() == old(self).next_id(),
            final(self).policy() == old(self).policy(),
            final(self).threshold() == old(self).threshold(),
            final(self).indexed_ids() == old(self).indexed_ids(),
            final(self).index() == old(self).index(),
            ids_of(final(self).entries()) == ids_of(old(self).entries()),
            old(self).consistent() ==> final(self).consistent(),
            old(self).entries().len() == 0 ==> !(result matches Ok(Some(_))),
            exists|found: Result<Vec<u64>, CacheError>|
                #[trigger] is_answer(
                    old(self).index(),
                    embedding,
                    TOP_K,
                    old(self).threshold(),
                    found,
                ) && is_lookup_of(old(self).entries(), final(self).entries(), found, result),
    {
        let answer = self.semantic_store.get(embedding, TOP_K, self.similarity_threshold);
        let ghost given = answer;
        assert(is_answer(self.index(), embedding, TOP_K, self.threshold(), given));
        let found = match answer {
            Ok(found) => found,
            Err(e) => {
                proof {
                    assert(is_lookup_of(
                        self.entries(),
                        self.entries(),
                        given,
                        Err::<Option<Vec<u8>>, CacheError>(e),
                    ));
                }
                return Err(e);
            },
        };
        proof {
            if found@.len() > 0 {
                lemma_position_of(self.entries(), found@[0]);
                lemma_ids_of_touched(self.entries(), found@[0]);
            }
        }
        let response = self.response_for(&found);
        proof {
            assert(is_lookup_of(
                old(self).entries(),
                self.entries(),
                given,
                Ok::<Option<Vec<u8>>, CacheError>(response),
            ));
        }
        Ok(response)
    }

    /// Stores `response` for `embedding` under a fresh id: the response first, then the
    /// embedding in the index, then an eviction run. An index that refuses the
    /// embedding ends the insertion with that error and the response left in the
    /// store; an eviction that fails ends it with that error and the insertion done.
    fn insert(&mut self, embedding: S::Embedding, response: Vec<u8>) -> (result: Result<
        (),
        CacheError,
    >)
        ensures
            final(self).next_id() == if old(self).next_id() == u64::MAX {
                0
            } else {
                (old(self).next_id() + 1) as u64
            },
            final(self).policy() == old(self).policy(),
            final(self).threshold() == old(self).threshold(),
            ({
                let inserted = stored(old(self).entries(), old(self).next_id(), response@);
                &&& final(self).entries().len() <= inserted.len()
                &&& final(self).entries() == inserted.skip(
                    inserted.len() - final(self).entries().len(),
                )
                &&& result is Ok ==> match final(self).policy() {
                    EvictionPolicy::EntryLimit(limit) => final(self).entries()
                        == kept_under_entry_limit(inserted, limit as nat),
                    EvictionPolicy::ByteLimit(limit) => final(self).entries().len() == 0
                        || final(self).byte_total() < limit,
                }
            }),
            old(self).consistent() && result is Ok ==> final(self).consistent(),
            exists|m: &mut S, answer: Result<(), CacheError>|
                #[trigger] call_ensures(S::put, (m, old(self).next_id(), embedding), answer)
                    && *m == old(self).index() && match answer {
                    Err(e) => {
                        &&& result == Err::<(), CacheError>(e)
                        &&& final(self).entries() == stored(
                            old(self).entries(),
                            old(self).next_id(),
                            response@,
                        )
                        &&& final(self).index() == *final(m)
                        &&& final(self).indexed_ids() == old(self).indexed_ids()
                    },
                    Ok(()) => exists|me: &mut Self|
                        {
                            &&& #[trigger] call_ensures(Self::evict, (me,), result)
                            &&& me.entries() == stored(
                                old(self).entries(),
                                old(self).next_id(),
                                response@,
                            )
                            &&& me.index() == *final(m)
                            &&& me.indexed_ids() == old(self).indexed_ids().insert(
                                old(self).next_id(),
                            )
                            &&& me.policy() == old(self).policy()
                            &&& me.threshold() == old(self).threshold()
                            &&& *final(me) == *final(self)
                        },
                },
            final(self).byte_total() == total_size(final(self).entries()),
            ({
                let inserted = stored(old(self).entries(), old(self).next_id(), response@);
                let dropped = inserted.take(inserted.len() - final(self).entries().len());
                final(self).byte_total() == old(self).byte_total() - stored_size(
                    old(self).entries(),
                    old(self).next_id(),
                ) + entry_size(response@.len()) - total_size(dropped)
            }),
            result is Ok ==> match final(self).policy() {
                EvictionPolicy::EntryLimit(limit) => final(self).entries().len() <= limit && (
                limit > 0 ==> final(self).entries().len() < limit),
                EvictionPolicy::ByteLimit(_) => true,
            },
    {
        let id = self.id_generator;
        self.id_generator = self.id_generator.wrapping_add(1);
        let ghost before = self.entries();
        let ghost payload = response@;
        proof {
            lemma_ids_of_stored(before, id, payload);
            assert(stored(before, id, payload).skip(0) =~= stored(before, id, payload));
        }
        self.response_store.put(id, response);
        let answer = self.semantic_store.put(id, embedding);
        proof {
            assert(exists|m: &mut S|
                #[trigger] call_ensures(S::put, (m, id, embedding), answer) && *m
                    == old(self).index() && *final(m) == self.index());
        }
        match answer {
            Ok(()) => {
                self.indexed = Ghost(self.indexed@.insert(id));
            },
            Err(e) => {
                proof {
                    assert(stored(before, id, payload).take(0) =~= Seq::<Entry>::empty());
                }
                return Err(e);
            },
        }
        let ghost index_after_put = self.index();
        let ghost filled = *self;
        let result = self.evict();
        proof {
            let m = choose|m: &mut S|
                #[trigger] call_ensures(S::put, (m, id, embedding), answer) && *m == old(
                    self,
                ).index() && *final(m) == index_after_put;
            let me = choose|me: &mut Self|
                #[trigger] call_ensures(Self::evict, (me,), result) && *me == filled && *final(me)
                    == *self;
            assert(me.entries() == stored(before, id, payload));
            assert(me.index() == *final(m));
            assert(me.indexed_ids() == old(self).indexed_ids().insert(id));
            assert(me.policy() == old(self).policy());
            assert(me.threshold() == old(self).threshold());
            assert(*final(me) == *self);
            assert(call_ensures(Self::evict, (me,), result));
            assert(call_ensures(S::put, (m, old(self).next_id(), embedding), answer));
            lemma_entry_limit_bounds(
                stored(before, id, payload),
                match self.policy() {
                    EvictionPolicy::EntryLimit(limit) => limit as nat,
                    EvictionPolicy::ByteLimit(limit) => limit as nat,
                },
            );
        }
        result
    }

    /// Replaces the response of the stored prompt that `embedding` matches exactly, if
    /// there is one, and reports whether there was. The index is asked for the nearest
    /// id at the exact-match threshold; what it answers decides, as `update_found`
    /// says. Nothing is evicted.
    fn try_update(&mut self, embedding: &S::Embedding, response: Vec<u8>) -> (result: Result<
        bool,
        CacheError,
    >)
        ensures
            final(self).next_id() == old(self).next_id(),
            final(self).policy() == old(self).policy(),
            final(self).threshold() == old(self).threshold(),
            final(self).indexed_ids() == old(self).indexed_ids(),
            final(self).index() == old(self).index(),
            old(self).consistent() ==> final(self).indexed_ids().subset_of(
                ids_of(final(self).entries()),
            ),
            exists|found: Result<Vec<u64>, CacheError>|
                #[trigger] is_answer(
                    old(self).index(),
                    embedding,
                    1,
                    Similarity::of_bits(EXACT_MATCH_BITS),
                    found,
                ) && is_update_of(
                    old(self).entries(),
                    final(self).entries(),
                    found,
                    response@,
                    result,
                ) && (old(self).consistent() && names_stored_id(old(self).entries(), found)
                    ==> final(self).consistent()),
    {
        let answer = self.semantic_store.get(embedding, 1, Similarity::exact_match());
        let ghost given = answer;
        assert(is_answer(
            self.index(),
            embedding,
            1,
            Similarity::of_bits(EXACT_MATCH_BITS),
            given,
        ));
        let ghost payload = response@;
        let found = match answer {
            Ok(found) => found,
            Err(e) => {
                proof {
                    assert(is_update_of(
                        self.entries(),
                        self.entries(),
                        given,
                        payload,
                        Err::<bool, CacheError>(e),
                    ));
                }
                return Err(e);
            },
        };
        proof {
            if found@.len() > 0 {
                lemma_ids_of_stored(self.entries(), found@[0], payload);
            }
        }
        let updated = self.update_found(&found, response);
        proof {
            assert(is_update_of(
                old(self).entries(),
                self.entries(),
                given,
                payload,
                Ok::<bool, CacheError>(updated),
            ));
        }
        Ok(updated)
    }
}

} // verus!
