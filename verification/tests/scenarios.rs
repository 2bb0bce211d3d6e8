use semcache::cache::cache::Cache;
use semcache::cache::cache_impl::{CacheImpl, EvictionPolicy};
use semcache::cache::error::{CacheError, IndexError};
use semcache::cache::ranking::{find_nearest_ids, SearchResult};
use semcache::cache::response_store::ResponseStore;
use semcache::cache::semantic_store::{flat_index_memory_usage_bytes, SemanticStore};
use semcache::cache::similarity::Similarity;

/// An exact inner-product index over unit vectors, searched by brute force.
struct ExactIndex {
    dimensionality: usize,
    vectors: Vec<(u64, Vec<f32>)>,
    searches: std::cell::Cell<usize>,
}

fn normalize(vec: &[f32]) -> Vec<f32> {
    let norm = vec.iter().map(|x| x * x).sum::<f32>().sqrt();
    vec.iter().map(|x| x / norm).collect()
}

impl ExactIndex {
    fn new(dimensionality: usize) -> Self {
        ExactIndex { dimensionality, vectors: Vec::new(), searches: std::cell::Cell::new(0) }
    }
}

impl SemanticStore for ExactIndex {
    type Embedding = Vec<f32>;

    fn get(&self, vec: &Vec<f32>, top_k: usize, t: Similarity) -> Result<Vec<u64>, CacheError> {
        if vec.len() != self.dimensionality {
            return Err(CacheError::FaissRetrievalError(IndexError::BadDimension));
        }
        if self.vectors.is_empty() {
            return Ok(vec![]);
        }
        self.searches.set(self.searches.get() + 1);
        let cosine_threshold = f32::from_bits(t.to_bits()) * 2.0 - 1.0;
        let query = normalize(vec);
        let mut scored: Vec<(f32, u64)> = self
            .vectors
            .iter()
            .map(|(id, v)| (v.iter().zip(query.iter()).map(|(a, b)| a * b).sum::<f32>(), *id))
            .collect();
        scored.sort_by(|a, b| b.0.partial_cmp(&a.0).unwrap_or(std::cmp::Ordering::Equal));
        let mut distances = Vec::new();
        let mut labels = Vec::new();
        for k in 0..top_k {
            match scored.get(k) {
                Some((d, id)) => {
                    distances.push(Similarity::from_bits(d.to_bits()));
                    labels.push(Some(*id));
                }
                None => {
                    distances.push(Similarity::from_bits(f32::MIN.to_bits()));
                    labels.push(None);
                }
            }
        }
        Ok(find_nearest_ids(
            SearchResult { distances, labels },
            Similarity::from_bits(cosine_threshold.to_bits()),
        ))
    }

    fn put(&mut self, id: u64, vec: Vec<f32>) -> Result<(), CacheError> {
        if vec.len() != self.dimensionality {
            return Err(CacheError::FaissRetrievalError(IndexError::BadDimension));
        }
        self.vectors.push((id, normalize(&vec)));
        Ok(())
    }

    fn delete(&mut self, id: u64) -> Result<(), CacheError> {
        self.vectors.retain(|(kept, _)| *kept != id);
        Ok(())
    }

    fn memory_usage_bytes(&self) -> usize {
        flat_index_memory_usage_bytes(self.vectors.len() as u64, self.dimensionality as u32)
    }
}

fn cache(threshold: f32, policy: EvictionPolicy) -> CacheImpl<ExactIndex> {
    CacheImpl::new(
        ExactIndex::new(3),
        ResponseStore::new(),
        Similarity::from_bits(threshold.to_bits()),
        policy,
    )
}

#[test]
fn hit_after_exact_put() {
    let mut cache = cache(0.9, EvictionPolicy::EntryLimit(4));
    cache.insert(vec![0.0, 1.0, 0.0], b"R1".to_vec()).unwrap();
    assert_eq!(cache.get_if_present(&vec![0.0, 1.0, 0.0]), Ok(Some(b"R1".to_vec())));
}

#[test]
fn semantic_hit_under_threshold() {
    let mut cache = cache(0.9, EvictionPolicy::EntryLimit(4));
    cache.insert(vec![0.0, 1.0, 0.0], b"R1".to_vec()).unwrap();
    assert_eq!(cache.get_if_present(&vec![0.0, 0.99, 0.0]), Ok(Some(b"R1".to_vec())));
}

#[test]
fn miss_below_threshold() {
    let mut cache = cache(0.9, EvictionPolicy::EntryLimit(4));
    cache.insert(vec![0.0, 1.0, 0.0], b"R1".to_vec()).unwrap();
    assert_eq!(cache.get_if_present(&vec![1.0, 0.0, 0.0]), Ok(None));
}

#[test]
fn ranking_prefers_the_higher_similarity() {
    let mut cache = cache(0.9, EvictionPolicy::EntryLimit(4));
    cache.insert(vec![0.0, 0.99, 0.1], b"A".to_vec()).unwrap();
    cache.insert(vec![0.0, 1.0, 0.0], b"B".to_vec()).unwrap();
    assert_eq!(cache.get_if_present(&vec![0.0, 1.0, 0.0]), Ok(Some(b"B".to_vec())));
}

#[test]
fn entry_limit_eviction() {
    let mut cache = cache(0.9, EvictionPolicy::EntryLimit(2));
    cache.insert(vec![1.0, 0.0, 0.0], b"first".to_vec()).unwrap();
    cache.insert(vec![0.0, 1.0, 0.0], b"second".to_vec()).unwrap();
    cache.insert(vec![0.0, 0.0, 1.0], b"third".to_vec()).unwrap();

    assert_eq!(cache.len(), 1);
    assert_eq!(cache.get_if_present(&vec![1.0, 0.0, 0.0]), Ok(None));
    assert_eq!(cache.get_if_present(&vec![0.0, 1.0, 0.0]), Ok(None));
    assert_eq!(cache.get_if_present(&vec![0.0, 0.0, 1.0]), Ok(Some(b"third".to_vec())));
    assert_eq!(cache.response(0), None);
    assert_eq!(cache.response(1), None);
}

#[test]
fn try_update_replaces_in_place() {
    let mut cache = cache(0.9, EvictionPolicy::EntryLimit(4));
    let e = vec![0.3, 0.4, 0.5];
    cache.insert(e.clone(), b"old".to_vec()).unwrap();
    let len = cache.len();

    assert_eq!(cache.try_update(&e, b"new".to_vec()), Ok(true));

    assert_eq!(cache.get_if_present(&e), Ok(Some(b"new".to_vec())));
    assert_eq!(cache.len(), len);
}

#[test]
fn try_update_is_idempotent() {
    let mut cache = cache(0.9, EvictionPolicy::EntryLimit(4));
    let e = vec![0.3, 0.4, 0.5];
    cache.insert(vec![1.0, 0.0, 0.0], b"other".to_vec()).unwrap();
    cache.insert(e.clone(), b"old".to_vec()).unwrap();

    assert_eq!(cache.try_update(&e, b"new".to_vec()), Ok(true));
    let len = cache.len();
    assert_eq!(cache.try_update(&e, b"new".to_vec()), Ok(true));
    assert_eq!(cache.len(), len);
    assert_eq!(cache.get_if_present(&e), Ok(Some(b"new".to_vec())));
    assert_eq!(cache.get_if_present(&vec![1.0, 0.0, 0.0]), Ok(Some(b"other".to_vec())));
}

#[test]
fn try_update_needs_an_exact_match() {
    let mut cache = cache(0.5, EvictionPolicy::EntryLimit(4));
    cache.insert(vec![0.0, 1.0, 0.0], b"old".to_vec()).unwrap();
    // similar enough for a hit at 0.5, not for an exact match at 0.99
    let near = vec![0.0, 1.0, 0.3];
    assert_eq!(cache.get_if_present(&near), Ok(Some(b"old".to_vec())));
    assert_eq!(cache.try_update(&near, b"new".to_vec()), Ok(false));
    assert_eq!(cache.get_if_present(&vec![0.0, 1.0, 0.0]), Ok(Some(b"old".to_vec())));
}

#[test]
fn empty_index_search() {
    let mut cache = cache(0.9, EvictionPolicy::EntryLimit(4));
    assert_eq!(cache.get_if_present(&vec![0.0, 1.0, 0.0]), Ok(None));
    assert_eq!(cache.get_if_present(&vec![0.0, 0.0, 0.0]), Ok(None));
    assert_eq!(cache.try_update(&vec![0.0, 1.0, 0.0], b"x".to_vec()), Ok(false));
    assert_eq!(cache.len(), 0);
}

#[test]
fn threshold_filter_follows_the_rescaled_cosine() {
    // the hit is found exactly when the cosine reaches 2t - 1
    let stored = vec![0.0f32, 1.0, 0.0];
    for (query, cosine) in [
        (vec![0.0f32, 1.0, 0.0], 1.0f32),
        (vec![0.0, 1.0, 1.0], 0.70710677),
        (vec![1.0, 0.0, 0.0], 0.0),
        (vec![0.0, -1.0, 0.0], -1.0),
    ] {
        for t in [0.0f32, 0.25, 0.5, 0.8, 0.9, 1.0] {
            let mut cache = cache(t, EvictionPolicy::EntryLimit(4));
            cache.insert(stored.clone(), b"R".to_vec()).unwrap();
            let expected = if cosine >= 2.0 * t - 1.0 { Some(b"R".to_vec()) } else { None };
            assert_eq!(cache.get_if_present(&query), Ok(expected), "{query:?} at {t}");
        }
    }
}

#[test]
fn byte_limit_eviction_counts_responses_and_index() {
    // each entry: 32 + 100 bytes in the store, 15 bytes in the index
    let mut cache = cache(0.9, EvictionPolicy::ByteLimit(300));
    cache.insert(vec![1.0, 0.0, 0.0], vec![1u8; 100]).unwrap();
    assert_eq!(cache.len(), 1);
    assert!(!cache.is_full());
    cache.insert(vec![0.0, 1.0, 0.0], vec![2u8; 100]).unwrap();
    assert_eq!(cache.len(), 2);
    assert!(!cache.is_full());
    cache.insert(vec![0.0, 0.0, 1.0], vec![3u8; 100]).unwrap();
    assert_eq!(cache.len(), 2);
    assert_eq!(cache.get_if_present(&vec![1.0, 0.0, 0.0]), Ok(None));
    assert_eq!(cache.get_if_present(&vec![0.0, 0.0, 1.0]), Ok(Some(vec![3u8; 100])));
}

#[test]
fn a_vector_of_the_wrong_dimension_is_refused() {
    let mut cache = cache(0.9, EvictionPolicy::EntryLimit(4));
    assert_eq!(
        cache.insert(vec![1.0, 0.0], b"x".to_vec()),
        Err(CacheError::FaissRetrievalError(IndexError::BadDimension))
    );
    assert_eq!(
        cache.get_if_present(&vec![1.0]),
        Err(CacheError::FaissRetrievalError(IndexError::BadDimension))
    );
    assert_eq!(
        CacheError::FaissRetrievalError(IndexError::BadDimension).message(),
        "Failed to search through Faiss in-memory store: invalid vector dimension"
    );
    assert_eq!(
        IndexError::Native { code: -4, message: String::from("boom") }.message(),
        "Native faiss error: boom"
    );
    assert_eq!(IndexError::ParameterName.message(), "Invalid parameter name of index");
}

#[test]
fn error_messages_of_the_index() {
    let cases = [
        (IndexError::BadCast, "Invalid index type cast"),
        (IndexError::IndexDescription, "Invalid index description"),
        (IndexError::BadFilePath, "Invalid file path"),
        (IndexError::ParameterName, "Invalid parameter name of index"),
        (IndexError::GpuResourcesMatch, "Number of GPU resources and devices do not match"),
        (IndexError::BadDimension, "invalid vector dimension"),
    ];
    for (error, words) in cases {
        assert_eq!(error.message(), words);
        assert_eq!(
            CacheError::FaissRetrievalError(error).message(),
            format!("Failed to search through Faiss in-memory store: {words}")
        );
    }
}

// The index behind the cache, on its own

#[test]
fn get_should_return_empty_when_store_is_empty() {
    let faiss_store = ExactIndex::new(3);

    let query = vec![0_f32, 0.99, 0.0];
    let found = faiss_store
        .get(&query, 1, Similarity::from_bits(0.9f32.to_bits()))
        .expect("error in faiss store");

    assert_eq!(found.len(), 0);
    assert_eq!(faiss_store.searches.get(), 0);
}

#[test]
fn flat_ip_faiss_store_get_should_return_most_similar() {
    let mut faiss_store = ExactIndex::new(3);
    let vec1 = vec![0_f32, 1.0, 0.0];
    let vec2 = vec![0_f32, 0.0, 1.0];
    faiss_store.put(1, vec1).expect("failed to insert vectors");
    faiss_store.put(2, vec2).expect("failed to insert vectors");

    let query = vec![0_f32, 0.99, 0.0];
    let found = faiss_store
        .get(&query, 1, Similarity::from_bits(0.9f32.to_bits()))
        .expect("No vector found");

    assert_eq!(found.len(), 1);
    assert_eq!(found[0], 1);
}

#[test]
fn get_should_return_closest_vector_first() {
    let mut cache = ExactIndex::new(3);
    let vec1 = vec![0_f32, 0.99, 0.1];
    cache.put(1, vec1).expect("failed to insert vectors");
    let vec2 = vec![0_f32, 1.0, 0.0];
    cache.put(2, vec2).expect("failed to insert vectors");

    let query = vec![0_f32, 1.0, 0.0];
    let found = cache
        .get(&query, 2, Similarity::from_bits(0.9f32.to_bits()))
        .expect("No vector found");

    assert_eq!(found.len(), 2);
    assert_eq!(found, vec!(2, 1));
}

#[test]
fn get_should_filter_out_matches_below_threshold() {
    let mut cache = ExactIndex::new(3);
    let vec = vec![0_f32, 1.0, 0.0];
    cache.put(1, vec).expect("failed to insert vectors");

    let query = vec![0_f32, 0.0, 0.0];
    let found = cache
        .get(&query, 2, Similarity::from_bits(0.9f32.to_bits()))
        .expect("No vector found");

    assert_eq!(found.len(), 0);
}

#[test]
fn delete_should_remove_vector_from_db() {
    let mut cache = ExactIndex::new(3);
    let vec1 = vec![0_f32, 1.0, 0.0];
    let id = 1;
    cache.put(id, vec1).expect("");

    let query = vec![0_f32, 0.99, 0.0];

    let found = cache.get(&query, 1, Similarity::from_bits(0.9f32.to_bits())).expect("");
    assert_eq!(found.len(), 1);

    cache.delete(id).expect("");
    let after_delete = cache.get(&query, 1, Similarity::from_bits(0.9f32.to_bits())).expect("");
    assert_eq!(after_delete.len(), 0);
}
