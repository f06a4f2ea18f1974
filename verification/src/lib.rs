//! A dual-backend Engine API relay core: forkchoice-update, payload-retrieval
//! and payload-validation dispatch, an LRU payload-correlation cache, and the
//! canonical-authoritative merge policy.

pub mod cache;
pub mod errors;
pub mod job;
pub mod laws;
pub mod relay;
pub mod secret;
pub mod trace;
pub mod types;
