use crate::cache::error::CacheError;
use crate::cache::response_store::{
    distinct_ids, entry_size, is_hit, is_stored_somewhere, stored, total_size, Entry,
};
use vstd::prelude::*;

verus! {

/// `after` is what is left of `before` once `payload` has been stored under some id
/// and no, some or all of the least recently used entries have been dropped.
pub open spec fn is_inserted(before: Seq<Entry>, after: Seq<Entry>, payload: Seq<u8>) -> bool {
    exists|id: u64|
        {
            let inserted = #[trigger] stored(before, id, payload);
            after.len() <= inserted.len() && after == inserted.skip(inserted.len() - after.len())
        }
}

/// A semantic cache as those who use one see it: responses are kept for embeddings and
/// found again for embeddings that are similar enough.
pub trait Cache {
    /// How the cache takes an embedding.
    type Embedding;

    /// The cache is well formed.
    spec fn wf(&self) -> bool;

    /// The stored responses, each under its id, least recently used first.
    spec fn entries(&self) -> Seq<Entry>;

    /// The running total of the stored responses' costs.
    spec fn byte_total(&self) -> nat;

    /// In a well-formed cache no id is stored twice, and the running total is the
    /// summed cost of the stored responses and fits a machine word.
    proof fn lemma_wf(&self)
        requires
            self.wf(),
        ensures
            distinct_ids(self.entries()),
            self.byte_total() == total_size(self.entries()),
            self.byte_total() <= usize::MAX,
    ;

    /// The response stored for the prompt nearest to `embedding`, if one is similar
    /// enough. A response that is returned becomes the most recently used one; a miss
    /// and a failure leave the cache as it was.
    fn get_if_present(&mut self, embedding: &Self::Embedding) -> (result: Result<
        Option<Vec<u8>>,
        CacheError,
    >)
        requires
            old(self).wf(),
        ensures
            final(self).wf(),
            final(self).byte_total() == old(self).byte_total(),
            match result {
                Ok(Some(response)) => is_hit(
                    old(self).entries(),
                    final(self).entries(),
                    response@,
                ),
                _ => final(self).entries() == old(self).entries(),
            },
    ;

    /// Stores `response` for `embedding` as the most recently used entry, and then
    /// drops least recently used entries as the eviction policy asks.
    fn insert(&mut self, embedding: Self::Embedding, response: Vec<u8>) -> (result: Result<
        (),
        CacheError,
    >)
        requires
            old(self).wf(),
            old(self).byte_total() + entry_size(response@.len()) <= usize::MAX,
        ensures
            final(self).wf(),
            final(self).byte_total() <= old(self).byte_total() + entry_size(response@.len()),
            is_inserted(old(self).entries(), final(self).entries(), response@),
    ;

    /// Replaces the response of the stored prompt that `embedding` matches exactly, if
    /// there is one, and reports whether there was. No match and a failure leave the
    /// cache as it was.
    fn try_update(&mut self, embedding: &Self::Embedding, response: Vec<u8>) -> (result: Result<
        bool,
        CacheError,
    >)
        requires
            old(self).wf(),
            old(self).byte_total() + entry_size(response@.len()) <= usize::MAX,
        ensures
            final(self).wf(),
            match result {
                Ok(true) => is_stored_somewhere(
                    old(self).entries(),
                    final(self).entries(),
                    response@,
                ),
                _ => final(self).entries() == old(self).entries() && final(self).byte_total()
                    == old(self).byte_total(),
            },
    ;
}

} // verus!
