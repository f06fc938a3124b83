//! A content-addressed answer cache for a streaming text-generation service.
//!
//! A query is canonicalised, fingerprinted and looked up in a key-value store.
//! On a miss the answer is assembled from the service's stream, compressed,
//! and stored under the fingerprint.

pub mod base64;
pub mod canonical;
pub mod codec;
pub mod fingerprint;
pub mod hex;
pub mod query;
pub mod record;
pub mod session;
pub mod stream;
