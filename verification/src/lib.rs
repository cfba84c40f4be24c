//! A media catalogue's discovery core and what surrounds it.
//!
//! The centre is hybrid search: a request is validated, its intent is read
//! from the query, two ranked lists (one from a vector index, one from a
//! keyword index) are fused by reciprocal rank, and the requested page of
//! the fused list is returned. Around it stand the embedding cache and
//! retry policy, filter selectivity, input sanitization and validation,
//! entity resolution, circuit breaking, and the shared vocabulary.
//!
//! The library performs no I/O and reads no clock, with one exception that
//! says so (`content::PlatformAvailability::is_currently_available`).
//! Where work has to alternate with requests, a function takes what
//! happened and returns what to do next. Fractions are carried as whole
//! millionths, fused scores as exact fractions.

pub mod circuit_breaker;
pub mod content;
pub mod embedding;
pub mod entity_resolution;
pub mod gateway;
pub mod ingestion;
pub mod intent;
pub mod math;
pub mod pubnub;
pub mod sanitization;
pub mod search;
pub mod security_headers;
pub mod sona;
pub mod text;
pub mod types;
pub mod validation;
