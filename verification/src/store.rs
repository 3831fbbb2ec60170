//! A verified model of the append-only cache table.
//!
//! The real store is an external analytical service; what this crate
//! owes it is a selection semantics: among the rows whose narrow and
//! wide keys both match and whose age is within the freshness bound,
//! the most recently written one wins.  `CacheTable` is that semantics
//! as a value: an append-only table with nondecreasing insertion
//! timestamps and a lookup proved against [`spec_select`].  Tests run
//! the read and write paths against it in place of the real store.

use crate::keys::{spec_fingerprint, spec_long_key, spec_short_key, ModelProviderRequest};
use crate::reader::ModelInferenceResponse;
use crate::request::{ContentBlock, ContentBlockView};
use crate::rows::{clone_blocks, view_blocks, CacheLookupResult};
use crate::writer::prepare_cache_write;
use vstd::prelude::*;

verus! {

/// One persisted row together with the insertion timestamp the store
/// assigned to it (in seconds).
#[derive(Debug, Clone)]
pub struct StoredRow {
    pub short_cache_key: u64,
    pub long_cache_key: String,
    pub output: Vec<ContentBlock>,
    pub raw_request: String,
    pub raw_response: String,
    pub timestamp: u64,
}

/// The mathematical shape of a stored row.
pub struct StoredRowView {
    pub short_cache_key: u64,
    pub long_cache_key: Seq<char>,
    pub output: Seq<ContentBlockView>,
    pub raw_request: Seq<char>,
    pub raw_response: Seq<char>,
    pub timestamp: u64,
}

impl View for StoredRow {
    type V = StoredRowView;

    open spec fn view(&self) -> StoredRowView {
        StoredRowView {
            short_cache_key: self.short_cache_key,
            long_cache_key: self.long_cache_key@,
            output: view_blocks(self.output@),
            raw_request: self.raw_request@,
            raw_response: self.raw_response@,
            timestamp: self.timestamp,
        }
    }
}

/// Whether a row written at `timestamp` is fresh at `now` under the
/// given bound: no bound accepts any age, a bound of `s` seconds
/// accepts exactly the rows with `now - timestamp <= s`.
pub open spec fn spec_row_fresh(timestamp: u64, now: u64, max_age_s: Option<u32>) -> bool {
    match max_age_s {
        None => true,
        Some(s) => now as int - timestamp as int <= s as int,
    }
}

/// Whether a row answers a lookup: both key forms match and the row
/// is fresh.
pub open spec fn spec_row_matches(
    r: StoredRowView,
    short: u64,
    long: Seq<char>,
    now: u64,
    max_age_s: Option<u32>,
) -> bool {
    r.short_cache_key == short && r.long_cache_key == long && spec_row_fresh(
        r.timestamp,
        now,
        max_age_s,
    )
}

/// The row a lookup returns: the last-written matching row, or
/// nothing.
pub open spec fn spec_select(
    rows: Seq<StoredRowView>,
    short: u64,
    long: Seq<char>,
    now: u64,
    max_age_s: Option<u32>,
) -> Option<StoredRowView>
    decreases rows.len(),
{
    if rows.len() == 0 {
        None
    } else if spec_row_matches(rows.last(), short, long, now, max_age_s) {
        Some(rows.last())
    } else {
        spec_select(rows.drop_last(), short, long, now, max_age_s)
    }
}

/// The in-memory model of the cache table.
pub struct CacheTable {
    pub rows: Vec<StoredRow>,
}

impl View for CacheTable {
    type V = Seq<StoredRowView>;

    open spec fn view(&self) -> Seq<StoredRowView> {
        self.rows@.map_values(|r: StoredRow| r@)
    }
}

impl CacheTable {
    /// Insertion order agrees with timestamp order: the table is
    /// append-only and the store assigns nondecreasing timestamps.
    pub open spec fn wf(&self) -> bool {
        forall|i: int, j: int|
            0 <= i <= j < self@.len() ==> self@[i].timestamp <= self@[j].timestamp
    }

    /// An empty table.
    pub fn new() -> (t: CacheTable)
        ensures
            t.wf(),
            t@.len() == 0,
    {
        let t = CacheTable { rows: Vec::new() };
        assert(t@ =~= Seq::<StoredRowView>::empty());
        t
    }

    /// Appends one row.  The store assigns timestamps in insertion
    /// order, so the new row is at least as recent as everything
    /// already in the table.
    pub fn insert(&mut self, row: StoredRow)
        requires
            old(self).wf(),
            forall|i: int|
                0 <= i < old(self)@.len() ==> old(self)@[i].timestamp <= row.timestamp,
        ensures
            final(self).wf(),
            final(self)@ == old(self)@.push(row@),
    {
        let ghost prev = self@;
        let ghost rv = row@;
        self.rows.push(row);
        proof {
            assert forall|k: int| 0 <= k < self@.len() implies self@[k] == prev.push(rv)[k] by {
                if k < prev.len() {
                    assert(self@[k] == self.rows@[k]@);
                    assert(prev[k] == old(self).rows@[k]@);
                }
            }
            assert(self@ =~= prev.push(rv));
        }
    }

    /// Looks one row up: the last-written row whose narrow and wide
    /// keys both match and whose age is within the bound, exactly as
    /// [`spec_select`] states it.
    pub fn lookup(&self, short: u64, long: &String, now: u64, max_age_s: Option<u32>) -> (r:
        Option<CacheLookupResult>)
        ensures
            match spec_select(self@, short, long@, now, max_age_s) {
                Some(rv) => r matches Some(res) && res@.output == rv.output && res@.raw_request
                    == rv.raw_request && res@.raw_response == rv.raw_response,
                None => r is None,
            },
    {
        let n = self.rows.len();
        assert(self@.take(n as int) =~= self@);
        let mut i: usize = n;
        while i > 0
            invariant
                i <= n == self@.len(),
                spec_select(self@, short, long@, now, max_age_s) == spec_select(
                    self@.take(i as int),
                    short,
                    long@,
                    now,
                    max_age_s,
                ),
            decreases i,
        {
            i = i - 1;
            let row = &self.rows[i];
            proof {
                assert(self@.take(i as int + 1).last() == self@[i as int]);
                assert(self@.take(i as int + 1).drop_last() =~= self@.take(i as int));
                assert(self@[i as int] == self.rows@[i as int]@);
            }
            let fresh = match max_age_s {
                None => true,
                Some(s) => row.timestamp > now || now - row.timestamp <= s as u64,
            };
            if fresh && row.short_cache_key == short && row.long_cache_key.eq(long) {
                assert(spec_row_matches(self@[i as int], short, long@, now, max_age_s));
                return Some(
                    CacheLookupResult {
                        output: clone_blocks(&row.output),
                        raw_request: row.raw_request.clone(),
                        raw_response: row.raw_response.clone(),
                    },
                );
            }
            assert(!spec_row_matches(self@[i as int], short, long@, now, max_age_s));
        }
        assert(self@.take(0) =~= Seq::<StoredRowView>::empty());
        None
    }

    /// The whole read path against this table: fingerprint the
    /// request, derive both key forms, select the most recent fresh
    /// row under them, and materialize a response marked as served
    /// from cache.
    pub fn lookup_request(
        &self,
        request: &ModelProviderRequest<'_>,
        now: u64,
        max_age_s: Option<u32>,
    ) -> (r: Option<ModelInferenceResponse>)
        ensures
            ({
                let digest = spec_fingerprint(
                    request.model_name@,
                    request.provider_name@,
                    request.request@,
                );
                match spec_select(
                    self@,
                    spec_short_key(digest),
                    spec_long_key(digest),
                    now,
                    max_age_s,
                ) {
                    Some(rv) => r matches Some(resp) && view_blocks(resp.output@) == rv.output
                        && resp.raw_request@ == rv.raw_request && resp.raw_response@
                        == rv.raw_response && resp.model_provider_name@ == request.provider_name@
                        && resp.cached == true,
                    None => r is None,
                }
            }),
    {
        let key = match request.get_cache_key() {
            Ok(k) => k,
            Err(_) => {
                proof {
                    assert(false);
                }
                return None;
            },
        };
        let short = match key.get_short_key() {
            Ok(v) => v,
            Err(_) => {
                proof {
                    assert(false);
                }
                return None;
            },
        };
        let long = key.get_long_key();
        match self.lookup(short, &long, now, max_age_s) {
            Some(result) => Some(ModelInferenceResponse::from_cache(result, request.provider_name)),
            None => None,
        }
    }

    /// The whole write path against this table: fingerprint the
    /// request, derive both key forms, and append the row under the
    /// given insertion timestamp.
    pub fn write_request(
        &mut self,
        request: &ModelProviderRequest<'_>,
        output: &Vec<ContentBlock>,
        raw_request: &str,
        raw_response: &str,
        timestamp: u64,
    )
        requires
            old(self).wf(),
            forall|i: int|
                0 <= i < old(self)@.len() ==> old(self)@[i].timestamp <= timestamp,
        ensures
            final(self).wf(),
            ({
                let digest = spec_fingerprint(
                    request.model_name@,
                    request.provider_name@,
                    request.request@,
                );
                final(self)@.len() == old(self)@.len() + 1 && final(self)@.last()
                    == (StoredRowView {
                    short_cache_key: spec_short_key(digest),
                    long_cache_key: spec_long_key(digest),
                    output: view_blocks(output@),
                    raw_request: raw_request@,
                    raw_response: raw_response@,
                    timestamp: timestamp,
                }) && final(self)@.drop_last() == old(self)@
            }),
    {
        let row = match prepare_cache_write(request, output, raw_request, raw_response) {
            Ok(row) => row,
            Err(_) => {
                proof {
                    assert(false);
                }
                return ;
            },
        };
        let stored = StoredRow {
            short_cache_key: row.short_cache_key,
            long_cache_key: row.long_cache_key,
            output: row.output,
            raw_request: row.raw_request,
            raw_response: row.raw_response,
            timestamp,
        };
        self.insert(stored);
        proof {
            assert(final(self)@.drop_last() =~= old(self)@);
        }
    }
}

/// Round trip: a row just written is found by a bound-free lookup
/// with the same keys, with the very fields that were written.
pub proof fn lemma_write_then_read(
    rows: Seq<StoredRowView>,
    row: StoredRowView,
    now: u64,
)
    ensures
        spec_select(
            rows.push(row),
            row.short_cache_key,
            row.long_cache_key,
            now,
            None,
        ) == Some(row),
{
    assert(rows.push(row).last() == row);
}

/// Freshness boundary: under a bound of `s` seconds a matching row
/// written at time `t` is returned exactly when `now - t <= s`, and a
/// bound-free lookup ignores the row's age entirely.
pub proof fn lemma_freshness_boundary(
    row: StoredRowView,
    now: u64,
    s: u32,
)
    ensures
        now as int - row.timestamp as int <= s as int ==> spec_select(
            seq![row],
            row.short_cache_key,
            row.long_cache_key,
            now,
            Some(s),
        ) == Some(row),
        now as int - row.timestamp as int > s as int ==> spec_select(
            seq![row],
            row.short_cache_key,
            row.long_cache_key,
            now,
            Some(s),
        ) is None,
        spec_select(seq![row], row.short_cache_key, row.long_cache_key, now, None) == Some(row),
{
    assert(seq![row].last() == row);
    assert(seq![row].drop_last() =~= Seq::<StoredRowView>::empty());
    assert(spec_select(
        Seq::<StoredRowView>::empty(),
        row.short_cache_key,
        row.long_cache_key,
        now,
        Some(s),
    ) is None);
}

/// What a selection returns always matches, is one of the rows, and
/// under nondecreasing timestamps carries the greatest timestamp of
/// any matching row; a selection that returns nothing had no matching
/// row to return.
pub proof fn lemma_select_most_recent(
    rows: Seq<StoredRowView>,
    short: u64,
    long: Seq<char>,
    now: u64,
    max_age_s: Option<u32>,
)
    requires
        forall|i: int, j: int| 0 <= i <= j < rows.len() ==> rows[i].timestamp <= rows[j].timestamp,
    ensures
        match spec_select(rows, short, long, now, max_age_s) {
            Some(rv) => spec_row_matches(rv, short, long, now, max_age_s) && (exists|i: int|
                0 <= i < rows.len() && rows[i] == rv) && (forall|j: int|
                0 <= j < rows.len() && spec_row_matches(rows[j], short, long, now, max_age_s)
                    ==> rows[j].timestamp <= rv.timestamp),
            None => forall|i: int|
                0 <= i < rows.len() ==> !spec_row_matches(rows[i], short, long, now, max_age_s),
        },
    decreases rows.len(),
{
    if rows.len() > 0 {
        let last = rows.last();
        if spec_row_matches(last, short, long, now, max_age_s) {
            assert(rows[rows.len() - 1] == last);
            assert forall|j: int|
                0 <= j < rows.len() && spec_row_matches(
                    rows[j],
                    short,
                    long,
                    now,
                    max_age_s,
                ) implies rows[j].timestamp <= last.timestamp by {
                assert(rows[j].timestamp <= rows[rows.len() - 1].timestamp);
            }
        } else {
            lemma_select_most_recent(rows.drop_last(), short, long, now, max_age_s);
            let inner = spec_select(rows.drop_last(), short, long, now, max_age_s);
            if inner is Some {
                let rv = inner.unwrap();
                let i = choose|i: int| 0 <= i < rows.drop_last().len() && rows.drop_last()[i] == rv;
                assert(rows[i] == rv);
                assert forall|j: int|
                    0 <= j < rows.len() && spec_row_matches(
                        rows[j],
                        short,
                        long,
                        now,
                        max_age_s,
                    ) implies rows[j].timestamp <= rv.timestamp by {
                    if j < rows.len() - 1 {
                        assert(rows.drop_last()[j] == rows[j]);
                        assert(spec_row_matches(rows.drop_last()[j], short, long, now, max_age_s));
                    }
                }
            } else {
                assert forall|i: int|
                    0 <= i < rows.len() implies !spec_row_matches(
                        rows[i],
                        short,
                        long,
                        now,
                        max_age_s,
                    ) by {
                    if i < rows.len() - 1 {
                        assert(rows.drop_last()[i] == rows[i]);
                    }
                }
            }
        }
    }
}

/// Most recent wins: with two rows under the same keys, a bound-free
/// lookup returns the later-written one.
pub proof fn lemma_most_recent_wins(
    first: StoredRowView,
    second: StoredRowView,
    now: u64,
)
    requires
        first.short_cache_key == second.short_cache_key,
        first.long_cache_key == second.long_cache_key,
        first.timestamp <= second.timestamp,
    ensures
        spec_select(
            seq![first, second],
            second.short_cache_key,
            second.long_cache_key,
            now,
            None,
        ) == Some(second),
{
    assert(seq![first, second].last() == second);
}

} // verus!
