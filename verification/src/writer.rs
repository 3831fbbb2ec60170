//! The write path: everything of a cache write that happens before
//! the hand-off.
//!
//! The key is computed eagerly, so a fingerprinting problem would
//! surface to the caller synchronously; the assembled row is then
//! handed to a detached unit of execution that performs the store
//! insert on its own time and owns its own failures.  Nothing here
//! waits for the store.

use crate::errors::CacheError;
use crate::keys::{spec_fingerprint, spec_long_key, spec_short_key, ModelProviderRequest};
use crate::request::ContentBlock;
use crate::rows::{clone_blocks, view_blocks, ModelInferenceCacheRow};
use vstd::prelude::*;

verus! {

/// Builds the row a cache write persists: both key forms derived from
/// the request's fingerprint, the output blocks, and the raw texts.
/// This is the synchronous part of a write; its cost is the
/// fingerprint, not the store round-trip.
pub fn prepare_cache_write(
    request: &ModelProviderRequest<'_>,
    output: &Vec<ContentBlock>,
    raw_request: &str,
    raw_response: &str,
) -> (r: Result<ModelInferenceCacheRow, CacheError>)
    ensures
        r is Ok,
        r matches Ok(row) ==> {
            let digest = spec_fingerprint(
                request.model_name@,
                request.provider_name@,
                request.request@,
            );
            &&& row@.short_cache_key == spec_short_key(digest)
            &&& row@.long_cache_key == spec_long_key(digest)
            &&& row@.output == view_blocks(output@)
            &&& row@.raw_request == raw_request@
            &&& row@.raw_response == raw_response@
        },
{
    let key = match request.get_cache_key() {
        Ok(k) => k,
        Err(e) => {
            return Err(e);
        },
    };
    let short_cache_key = match key.get_short_key() {
        Ok(v) => v,
        Err(e) => {
            return Err(e);
        },
    };
    let long_cache_key = key.get_long_key();
    Ok(
        ModelInferenceCacheRow {
            short_cache_key,
            long_cache_key,
            output: clone_blocks(output),
            raw_request: String::from_str(raw_request),
            raw_response: String::from_str(raw_response),
        },
    )
}

} // verus!
