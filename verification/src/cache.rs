//! Per-request cache configuration.

use vstd::prelude::*;

verus! {

/// Default for the `write` field of [`CacheOptions`]: writes are on
/// unless a caller switches them off.
pub fn default_write() -> (b: bool)
    ensures
        b == true,
{
    true
}

/// Per-operation cache configuration.
///
/// `read` decides whether a lookup is attempted before calling a
/// provider (opt-in), `write` whether a completed exchange is handed to
/// the writer (opt-out), and `max_age_s` bounds the age of rows a lookup
/// may return; `None` means "most recent, unbounded age".
#[derive(Debug, Clone)]
pub struct CacheOptions {
    pub read: bool,
    pub write: bool,
    pub max_age_s: Option<u32>,
}

impl Default for CacheOptions {
    /// Reads off, writes on, no freshness bound.
    fn default() -> (opts: CacheOptions)
        ensures
            opts.read == false,
            opts.write == true,
            opts.max_age_s is None,
    {
        CacheOptions { read: false, write: default_write(), max_age_s: None }
    }
}

} // verus!
