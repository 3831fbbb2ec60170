//! The read path: building the lookup query and interpreting what the
//! store sends back.
//!
//! A lookup filters on the narrow key so the store's index does the
//! heavy lifting, re-checks the wide key to rule out a narrow-key
//! collision, optionally bounds the row's age, and takes the most
//! recent row only.  The query goes out as parameterized text; the
//! store's reply comes back as text and is decoded here.

use crate::errors::CacheError;
use crate::keys::{spec_long_key, spec_short_key, CacheKey};
use crate::numeric::{spec_u64_decimal, u64_to_decimal};
use crate::request::ContentBlock;
use crate::rows::{
    decode_lookup_result, spec_parse_blocks, spec_parse_lookup_row, CacheLookupResult,
};
use vstd::prelude::*;

verus! {

/// A parameterized lookup query: the statement text and the values
/// for its named placeholders.
#[derive(Debug, Clone)]
pub struct LookupQuery {
    pub sql: String,
    pub short_cache_key: String,
    pub long_cache_key: String,
    pub lookback_s: Option<String>,
}

/// The lookup statement with a freshness bound.
pub open spec fn spec_bounded_query() -> Seq<char> {
    "SELECT output, raw_request, raw_response FROM ModelInferenceCache WHERE short_cache_key = {short_cache_key:UInt64} AND long_cache_key = {long_cache_key:String} AND timestamp > subtractSeconds(now(), {lookback_s:UInt32}) ORDER BY timestamp DESC LIMIT 1 FORMAT JSONEachRow"@
}

/// The lookup statement without a freshness bound.
pub open spec fn spec_unbounded_query() -> Seq<char> {
    "SELECT output, raw_request, raw_response FROM ModelInferenceCache WHERE short_cache_key = {short_cache_key:UInt64} AND long_cache_key = {long_cache_key:String} ORDER BY timestamp DESC LIMIT 1 FORMAT JSONEachRow"@
}

/// Builds the lookup query for a key: the statement picks the bounded
/// or unbounded form after `max_age_s`, the parameters carry the
/// narrow key and the bound in decimal and the wide key verbatim.
pub fn build_lookup_query(key: &CacheKey, max_age_s: Option<u32>) -> (q: LookupQuery)
    ensures
        max_age_s is Some ==> q.sql@ == spec_bounded_query(),
        max_age_s is None ==> q.sql@ == spec_unbounded_query(),
        q.short_cache_key@ == spec_u64_decimal(spec_short_key(key@) as nat),
        q.long_cache_key@ == spec_long_key(key@),
        match max_age_s {
            Some(s) => q.lookback_s matches Some(l) && l@ == spec_u64_decimal(s as nat),
            None => q.lookback_s is None,
        },
{
    let short = match key.get_short_key() {
        Ok(v) => v,
        Err(_) => {
            proof {
                assert(false);
            }
            0
        },
    };
    let short_cache_key = u64_to_decimal(short);
    let long_cache_key = key.get_long_key();
    match max_age_s {
        Some(s) => LookupQuery {
            sql: String::from_str(
                "SELECT output, raw_request, raw_response FROM ModelInferenceCache WHERE short_cache_key = {short_cache_key:UInt64} AND long_cache_key = {long_cache_key:String} AND timestamp > subtractSeconds(now(), {lookback_s:UInt32}) ORDER BY timestamp DESC LIMIT 1 FORMAT JSONEachRow",
            ),
            short_cache_key,
            long_cache_key,
            lookback_s: Some(u64_to_decimal(s as u64)),
        },
        None => LookupQuery {
            sql: String::from_str(
                "SELECT output, raw_request, raw_response FROM ModelInferenceCache WHERE short_cache_key = {short_cache_key:UInt64} AND long_cache_key = {long_cache_key:String} ORDER BY timestamp DESC LIMIT 1 FORMAT JSONEachRow",
            ),
            short_cache_key,
            long_cache_key,
            lookback_s: None,
        },
    }
}

/// The table the cache writes to and reads from.
pub fn cache_table_name() -> (s: &'static str)
    ensures
        s@ == "ModelInferenceCache"@,
{
    "ModelInferenceCache"
}

/// A full response materialized from a cached row, carrying the
/// provider context of the original request and marked as served from
/// cache.
#[derive(Debug, Clone)]
pub struct ModelInferenceResponse {
    pub output: Vec<ContentBlock>,
    pub raw_request: String,
    pub raw_response: String,
    pub model_provider_name: String,
    pub cached: bool,
}

impl ModelInferenceResponse {
    /// Rebuilds a response from a cache hit: the cached columns plus
    /// the provider name of the request that asked, with the cache-hit
    /// marker set.
    pub fn from_cache(result: CacheLookupResult, provider_name: &str) -> (r:
        ModelInferenceResponse)
        ensures
            crate::rows::view_blocks(r.output@) == result@.output,
            r.raw_request@ == result@.raw_request,
            r.raw_response@ == result@.raw_response,
            r.model_provider_name@ == provider_name@,
            r.cached == true,
    {
        ModelInferenceResponse {
            output: result.output,
            raw_request: result.raw_request,
            raw_response: result.raw_response,
            model_provider_name: String::from_str(provider_name),
            cached: true,
        }
    }
}

/// Interprets the raw text a lookup query returned: empty text is a
/// miss, one well-formed row becomes a cached response carrying the
/// request's provider name, and anything else is a `Cache` error.
pub fn interpret_lookup_response(raw: &str, provider_name: &str) -> (r: Result<
    Option<ModelInferenceResponse>,
    CacheError,
>)
    ensures
        raw@.len() == 0 ==> (r matches Ok(o) && o is None),
        raw@.len() > 0 ==> match spec_parse_lookup_row(raw@) {
            None => (r matches Err(e) && e is Cache),
            Some(cols) => match spec_parse_blocks(cols.0) {
                None => (r matches Err(e) && e is Cache),
                Some(blocks) => (r matches Ok(o) && o matches Some(resp)
                    && crate::rows::view_blocks(resp.output@) == blocks && resp.raw_request@
                    == cols.1 && resp.raw_response@ == cols.2 && resp.model_provider_name@
                    == provider_name@ && resp.cached == true),
            },
        },
{
    match decode_lookup_result(raw) {
        Ok(Some(result)) => Ok(Some(ModelInferenceResponse::from_cache(result, provider_name))),
        Ok(None) => Ok(None),
        Err(e) => Err(e),
    }
}

} // verus!
