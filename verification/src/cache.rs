pub mod cache;
pub mod cache_impl;
pub mod error;
pub mod lru_map;
pub mod ranking;
pub mod response_store;
pub mod semantic_store;
pub mod similarity;
