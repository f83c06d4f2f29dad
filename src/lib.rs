//! Scan-result processing: response normalisation, passive and active
//! fingerprinting, the bit-packed mod-list format, honeypot detection by
//! content hash, and the batching of upserts.
pub mod active;
pub mod chat;
pub mod config;
pub mod database;
pub mod forge;
pub mod hash_cache;
pub mod json;
pub mod normalize;
pub mod passive;
pub mod process;
pub mod prune;
pub mod scan;
pub mod snipe;
pub mod tcp;
pub mod text;
