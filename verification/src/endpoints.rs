pub mod cache_aside;
pub mod chat;
