pub mod cache;
pub mod config;
pub mod embedding;
pub mod endpoints;
pub mod metrics;
pub mod providers;
pub mod utils;
