//! Content-addressed response cache for an LLM inference gateway.
//!
//! The crate turns a (model, provider, request) triple into a stable
//! 32-byte fingerprint, derives from it a narrow numeric key for indexed
//! equality matching and a wide hex key for exact-match verification,
//! builds the parameterized lookup queries for an append-only analytical
//! store, and decodes the rows that come back.  The store itself (an
//! external service reached over HTTP) is driven by a thin unverified
//! shell; everything that decides or computes lives here.

pub mod cache;
pub mod errors;
pub mod ext;
pub mod json_text;
pub mod keys;
pub mod numeric;
pub mod reader;
pub mod request;
pub mod rows;
pub mod store;
pub mod writer;
