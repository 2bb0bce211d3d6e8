use crate::cache::error::CacheError;
use crate::cache::similarity::Similarity;
use vstd::prelude::*;

verus! {

/// A vector index: embeddings of one dimension, each kept under a 64-bit id, searched by
/// similarity. The cache sees an index through these four operations only, so that a
/// flat inner-product index, a quantising one or a stand-in can serve alike.
pub trait SemanticStore {
    /// How the index takes an embedding.
    type Embedding;

    /// The ids of the vectors most similar to `vec`, at most `top_k` of them and only
    /// those that reach `similarity_threshold`, the most similar first. The threshold
    /// runs from 0, least similar, to 1, most similar.
    fn get(
        &self,
        vec: &Self::Embedding,
        top_k: usize,
        similarity_threshold: Similarity,
    ) -> Result<Vec<u64>, CacheError>;

    /// Adds `vec` under `id`.
    fn put(&mut self, id: u64, vec: Self::Embedding) -> Result<(), CacheError>;

    /// Removes what is kept under `id`; an id that is not there is no error.
    fn delete(&mut self, id: u64) -> Result<(), CacheError>;

    /// An estimate of the memory that the index takes, in bytes.
    fn memory_usage_bytes(&self) -> usize;
}

/// `found` is an answer of `index` to a search for `vec` that asks for `top_k` ids at
/// `similarity_threshold`.
pub open spec fn is_answer<S: SemanticStore>(
    index: S,
    vec: &S::Embedding,
    top_k: usize,
    similarity_threshold: Similarity,
    found: Result<Vec<u64>, CacheError>,
) -> bool {
    call_ensures(S::get, (&index, vec, top_k, similarity_threshold), found)
}

/// The bytes that a flat index of `num_vectors` vectors of `dimensionality` components
/// is taken to need: four bytes a component and a fifth on top for the index's own
/// bookkeeping, rounded up.
pub open spec fn flat_index_bytes(num_vectors: nat, dimensionality: nat) -> nat {
    ((24 * num_vectors * dimensionality + 4) / 5) as nat
}

/// The memory estimate of a flat index, capped at the largest `usize`.
pub fn flat_index_memory_usage_bytes(num_vectors: u64, dimensionality: u32) -> (bytes: usize)
    ensures
        bytes == if flat_index_bytes(num_vectors as nat, dimensionality as nat) <= usize::MAX {
            flat_index_bytes(num_vectors as nat, dimensionality as nat)
        } else {
            usize::MAX as nat
        },
{
    let n: u128 = num_vectors as u128;
    let d: u128 = dimensionality as u128;
    assert(n * d <= 0xFFFF_FFFF_FFFF_FFFF * 0xFFFF_FFFF) by (nonlinear_arith)
        requires
            0 <= n <= 0xFFFF_FFFF_FFFF_FFFF,
            0 <= d <= 0xFFFF_FFFF,
    ;
    let components: u128 = n * d;
    assert(24 * (num_vectors as nat) * (dimensionality as nat) == 24 * (components as nat))
        by (nonlinear_arith)
        requires
            components == n * d,
            n == num_vectors,
            d == dimensionality,
    ;
    let raised: u128 = (24 * components + 4) / 5;
    if raised <= usize::MAX as u128 {
        raised as usize
    } else {
        usize::MAX
    }
}

} // verus!
