//! Cache rows: what the writer persists and what the reader decodes.
//!
//! A persisted row carries both key forms, the output blocks (stored as
//! one JSON-encoded text column), and the raw request and response
//! texts; the store assigns the insertion timestamp.  A lookup selects
//! only the output and raw-text columns, one JSON object per row, and
//! the decoder here turns that text back into values — a malformed row
//! is a `Cache` error, distinct from a plain miss.

use crate::errors::CacheError;
use crate::json_text::{
    all_ws_from, lemma_parse_of_json_string, parse_json_string, push_json_string, spec_all_ws,
    spec_is_ws, spec_json_string, spec_matches_at, spec_parse_json_string, spec_parse_string_body,
    starts_with_at,
};
use crate::numeric::{spec_u64_decimal, u64_to_decimal};
use crate::request::{
    serialize_blocks, spec_serialize_block, spec_serialize_blocks, ContentBlock, ContentBlockView,
};
use vstd::prelude::*;

verus! {

/// The view of a sequence of content blocks.
pub open spec fn view_blocks(bs: Seq<ContentBlock>) -> Seq<ContentBlockView> {
    bs.map_values(|b: ContentBlock| b@)
}

/// One row of the cache table, as handed to the store's insert
/// operation.  Never mutated once written.
#[derive(Debug, Clone)]
pub struct ModelInferenceCacheRow {
    pub short_cache_key: u64,
    pub long_cache_key: String,
    pub output: Vec<ContentBlock>,
    pub raw_request: String,
    pub raw_response: String,
}

/// The mathematical shape of a cache row.
pub struct RowView {
    pub short_cache_key: u64,
    pub long_cache_key: Seq<char>,
    pub output: Seq<ContentBlockView>,
    pub raw_request: Seq<char>,
    pub raw_response: Seq<char>,
}

impl View for ModelInferenceCacheRow {
    type V = RowView;

    open spec fn view(&self) -> RowView {
        RowView {
            short_cache_key: self.short_cache_key,
            long_cache_key: self.long_cache_key@,
            output: view_blocks(self.output@),
            raw_request: self.raw_request@,
            raw_response: self.raw_response@,
        }
    }
}

/// The canonical row text handed to the store's insert operation: one
/// JSON object, the output column nested as a JSON-encoded string.
pub open spec fn spec_serialize_row(r: RowView) -> Seq<char> {
    "{\"short_cache_key\":"@ + spec_u64_decimal(r.short_cache_key as nat)
        + ",\"long_cache_key\":"@ + spec_json_string(r.long_cache_key) + ",\"output\":"@
        + spec_json_string(spec_serialize_blocks(r.output)) + ",\"raw_request\":"@
        + spec_json_string(r.raw_request) + ",\"raw_response\":"@ + spec_json_string(
        r.raw_response,
    ) + "}"@
}

/// The row text for the insert operation, exactly as
/// [`spec_serialize_row`] states it.
#[verifier::rlimit(40)]
pub fn serialize_cache_row(row: &ModelInferenceCacheRow) -> (s: String)
    ensures
        s@ == spec_serialize_row(row@),
{
    let mut out = String::new();
    out.append("{\"short_cache_key\":");
    let d = u64_to_decimal(row.short_cache_key);
    out.append(d.as_str());
    out.append(",\"long_cache_key\":");
    push_json_string(row.long_cache_key.as_str(), &mut out);
    out.append(",\"output\":");
    let mut blocks_text = String::new();
    serialize_blocks(&row.output, &mut blocks_text);
    push_json_string(blocks_text.as_str(), &mut out);
    out.append(",\"raw_request\":");
    push_json_string(row.raw_request.as_str(), &mut out);
    out.append(",\"raw_response\":");
    push_json_string(row.raw_response.as_str(), &mut out);
    out.append("}");
    assert(out@ =~= spec_serialize_row(row@));
    out
}

/// The subset of a row that a successful lookup returns.
#[derive(Debug, Clone)]
pub struct CacheLookupResult {
    pub output: Vec<ContentBlock>,
    pub raw_request: String,
    pub raw_response: String,
}

/// The mathematical shape of a lookup result.
pub struct CacheLookupResultView {
    pub output: Seq<ContentBlockView>,
    pub raw_request: Seq<char>,
    pub raw_response: Seq<char>,
}

impl View for CacheLookupResult {
    type V = CacheLookupResultView;

    open spec fn view(&self) -> CacheLookupResultView {
        CacheLookupResultView {
            output: view_blocks(self.output@),
            raw_request: self.raw_request@,
            raw_response: self.raw_response@,
        }
    }
}

/// Parses one content block at position `i`: one of the three
/// canonical block forms.
pub open spec fn spec_parse_block(s: Seq<char>, i: int) -> Option<(ContentBlockView, int)> {
    if spec_matches_at(s, i, "{\"type\":\"text\",\"text\":"@) {
        match spec_parse_json_string(s, i + "{\"type\":\"text\",\"text\":"@.len()) {
            Some((text, j)) => if j < s.len() && s[j] == '}' {
                Some((ContentBlockView::Text { text }, j + 1))
            } else {
                None
            },
            None => None,
        }
    } else if spec_matches_at(s, i, "{\"type\":\"tool_call\",\"id\":"@) {
        match spec_parse_json_string(s, i + "{\"type\":\"tool_call\",\"id\":"@.len()) {
            Some((id, j1)) => if spec_matches_at(s, j1, ",\"name\":"@) {
                match spec_parse_json_string(s, j1 + ",\"name\":"@.len()) {
                    Some((name, j2)) => if spec_matches_at(s, j2, ",\"arguments\":"@) {
                        match spec_parse_json_string(s, j2 + ",\"arguments\":"@.len()) {
                            Some((arguments, j3)) => if j3 < s.len() && s[j3] == '}' {
                                Some((ContentBlockView::ToolCall { id, name, arguments }, j3 + 1))
                            } else {
                                None
                            },
                            None => None,
                        }
                    } else {
                        None
                    },
                    None => None,
                }
            } else {
                None
            },
            None => None,
        }
    } else if spec_matches_at(s, i, "{\"type\":\"tool_result\",\"id\":"@) {
        match spec_parse_json_string(s, i + "{\"type\":\"tool_result\",\"id\":"@.len()) {
            Some((id, j1)) => if spec_matches_at(s, j1, ",\"name\":"@) {
                match spec_parse_json_string(s, j1 + ",\"name\":"@.len()) {
                    Some((name, j2)) => if spec_matches_at(s, j2, ",\"result\":"@) {
                        match spec_parse_json_string(s, j2 + ",\"result\":"@.len()) {
                            Some((result, j3)) => if j3 < s.len() && s[j3] == '}' {
                                Some((ContentBlockView::ToolResult { id, name, result }, j3 + 1))
                            } else {
                                None
                            },
                            None => None,
                        }
                    } else {
                        None
                    },
                    None => None,
                }
            } else {
                None
            },
            None => None,
        }
    } else {
        None
    }
}

/// Parses a non-empty, comma-separated run of blocks from position
/// `i`, stopping at the first position that does not continue with a
/// comma.
pub open spec fn spec_parse_blocks_from(s: Seq<char>, i: int) -> Option<
    (Seq<ContentBlockView>, int),
>
    decreases s.len() - i when 0 <= i <= s.len()
{
    match spec_parse_block(s, i) {
        None => None,
        Some((b, j)) => {
            if j <= i || j > s.len() {
                None
            } else if j < s.len() && s[j] == ',' {
                match spec_parse_blocks_from(s, j + 1) {
                    Some((rest, k)) => Some((seq![b] + rest, k)),
                    None => None,
                }
            } else {
                Some((seq![b], j))
            }
        },
    }
}

/// Parses a whole block-list text: the canonical form of a stored
/// output column.  The text must be consumed exactly.
pub open spec fn spec_parse_blocks(s: Seq<char>) -> Option<Seq<ContentBlockView>> {
    if s.len() >= 2 && s[0] == '[' {
        if s[1] == ']' {
            if s.len() == 2 {
                Some(Seq::empty())
            } else {
                None
            }
        } else {
            match spec_parse_blocks_from(s, 1) {
                Some((blocks, j)) => if j + 1 == s.len() && j < s.len() && s[j] == ']' {
                    Some(blocks)
                } else {
                    None
                },
                None => None,
            }
        }
    } else {
        None
    }
}

/// A well-formed string body ends after where it began and within the
/// text.
pub proof fn lemma_parse_string_body_bounds(s: Seq<char>, i: int)
    requires
        0 <= i <= s.len(),
    ensures
        spec_parse_string_body(s, i) matches Some(p) ==> i < p.1 <= s.len(),
    decreases s.len() - i,
{
    if i < s.len() {
        let c = s[i];
        if c == '\\' && i + 1 < s.len() {
            if crate::json_text::spec_escape_code(s[i + 1]) is Some {
                lemma_parse_string_body_bounds(s, i + 2);
            } else if s[i + 1] == 'u' && i + 6 <= s.len() {
                lemma_parse_string_body_bounds(s, i + 6);
            }
        } else if c != '"' && (c as u32) >= 32 {
            lemma_parse_string_body_bounds(s, i + 1);
        }
    }
}

/// A well-formed JSON string literal ends after where it began and
/// within the text.
pub proof fn lemma_parse_json_string_bounds(s: Seq<char>, i: int)
    requires
        0 <= i <= s.len(),
    ensures
        spec_parse_json_string(s, i) matches Some(p) ==> i < p.1 <= s.len(),
{
    if i < s.len() && s[i] == '"' {
        lemma_parse_string_body_bounds(s, i + 1);
    }
}

/// Parses one content block, as [`spec_parse_block`] states it.
fn parse_block(s: &str, i: usize) -> (r: Option<(ContentBlock, usize)>)
    requires
        i <= s@.len(),
    ensures
        match r {
            Some(p) => spec_parse_block(s@, i as int) == Some((p.0@, p.1 as int)),
            None => spec_parse_block(s@, i as int) is None,
        },
{
    let n = s.unicode_len();
    if starts_with_at(s, i, "{\"type\":\"text\",\"text\":") {
        let h = "{\"type\":\"text\",\"text\":".unicode_len();
        match parse_json_string(s, i + h) {
            Some((text, j)) => {
                proof {
                    lemma_parse_json_string_bounds(s@, i as int + h as int);
                }
                if j < n && s.get_char(j) == '}' {
                    Some((ContentBlock::Text { text }, j + 1))
                } else {
                    None
                }
            },
            None => None,
        }
    } else if starts_with_at(s, i, "{\"type\":\"tool_call\",\"id\":") {
        let h = "{\"type\":\"tool_call\",\"id\":".unicode_len();
        let (id, j1) = match parse_json_string(s, i + h) {
            Some(p) => p,
            None => {
                return None;
            },
        };
        proof {
            lemma_parse_json_string_bounds(s@, i as int + h as int);
        }
        if !starts_with_at(s, j1, ",\"name\":") {
            return None;
        }
        let h2 = ",\"name\":".unicode_len();
        let (name, j2) = match parse_json_string(s, j1 + h2) {
            Some(p) => p,
            None => {
                return None;
            },
        };
        proof {
            lemma_parse_json_string_bounds(s@, j1 as int + h2 as int);
        }
        if !starts_with_at(s, j2, ",\"arguments\":") {
            return None;
        }
        let h3 = ",\"arguments\":".unicode_len();
        let (arguments, j3) = match parse_json_string(s, j2 + h3) {
            Some(p) => p,
            None => {
                return None;
            },
        };
        proof {
            lemma_parse_json_string_bounds(s@, j2 as int + h3 as int);
        }
        if j3 < n && s.get_char(j3) == '}' {
            Some((ContentBlock::ToolCall { id, name, arguments }, j3 + 1))
        } else {
            None
        }
    } else if starts_with_at(s, i, "{\"type\":\"tool_result\",\"id\":") {
        let h = "{\"type\":\"tool_result\",\"id\":".unicode_len();
        let (id, j1) = match parse_json_string(s, i + h) {
            Some(p) => p,
            None => {
                return None;
            },
        };
        proof {
            lemma_parse_json_string_bounds(s@, i as int + h as int);
        }
        if !starts_with_at(s, j1, ",\"name\":") {
            return None;
        }
        let h2 = ",\"name\":".unicode_len();
        let (name, j2) = match parse_json_string(s, j1 + h2) {
            Some(p) => p,
            None => {
                return None;
            },
        };
        proof {
            lemma_parse_json_string_bounds(s@, j1 as int + h2 as int);
        }
        if !starts_with_at(s, j2, ",\"result\":") {
            return None;
        }
        let h3 = ",\"result\":".unicode_len();
        let (result, j3) = match parse_json_string(s, j2 + h3) {
            Some(p) => p,
            None => {
                return None;
            },
        };
        proof {
            lemma_parse_json_string_bounds(s@, j2 as int + h3 as int);
        }
        if j3 < n && s.get_char(j3) == '}' {
            Some((ContentBlock::ToolResult { id, name, result }, j3 + 1))
        } else {
            None
        }
    } else {
        None
    }
}

/// Parses a whole block-list text, as [`spec_parse_blocks`] states it.
pub fn parse_blocks(s: &str) -> (r: Option<Vec<ContentBlock>>)
    ensures
        match r {
            Some(v) => spec_parse_blocks(s@) == Some(view_blocks(v@)),
            None => spec_parse_blocks(s@) is None,
        },
{
    let n = s.unicode_len();
    if n < 2 {
        return None;
    }
    if s.get_char(0) != '[' {
        return None;
    }
    if s.get_char(1) == ']' {
        if n == 2 {
            let empty: Vec<ContentBlock> = Vec::new();
            assert(view_blocks(empty@) =~= Seq::<ContentBlockView>::empty());
            return Some(empty);
        } else {
            return None;
        }
    }
    let mut acc: Vec<ContentBlock> = Vec::new();
    let mut i: usize = 1;
    loop
        invariant
            1 <= i <= n == s@.len(),
            s@.len() >= 2 && s@[0] == '[' && s@[1] != ']',
            match spec_parse_blocks_from(s@, i as int) {
                Some(p) => spec_parse_blocks_from(s@, 1) == Some((view_blocks(acc@) + p.0, p.1)),
                None => spec_parse_blocks_from(s@, 1) is None,
            },
        decreases n - i,
    {
        let (b, j) = match parse_block(s, i) {
            Some(p) => p,
            None => {
                return None;
            },
        };
        if j <= i || j > n {
            return None;
        }
        let ghost prev = acc@;
        acc.push(b);
        assert(view_blocks(acc@) =~= view_blocks(prev).push(b@));
        if j < n && s.get_char(j) == ',' {
            proof {
                let rest = spec_parse_blocks_from(s@, j as int + 1);
                if rest is Some {
                    assert(view_blocks(prev) + (seq![b@] + rest.unwrap().0) =~= (view_blocks(prev)
                        + seq![b@]) + rest.unwrap().0);
                    assert(view_blocks(prev) + seq![b@] =~= view_blocks(acc@));
                }
            }
            i = j + 1;
        } else {
            assert(spec_parse_blocks_from(s@, i as int) == Some((seq![b@], j as int)));
            assert(view_blocks(prev) + seq![b@] =~= view_blocks(acc@));
            if j < n && j + 1 == n && s.get_char(j) == ']' {
                return Some(acc);
            } else {
                return None;
            }
        }
    }
}

/// The text a lookup gets back from the store for one matching row:
/// one JSON object with the output column nested as a string, possibly
/// followed by whitespace.
pub open spec fn spec_lookup_row_text(
    output: Seq<ContentBlockView>,
    raw_request: Seq<char>,
    raw_response: Seq<char>,
) -> Seq<char> {
    "{\"output\":"@ + spec_json_string(spec_serialize_blocks(output)) + ",\"raw_request\":"@
        + spec_json_string(raw_request) + ",\"raw_response\":"@ + spec_json_string(raw_response)
        + "}"@
}

/// Parses the text of one result row into its three string columns.
pub open spec fn spec_parse_lookup_row(s: Seq<char>) -> Option<(Seq<char>, Seq<char>, Seq<char>)> {
    if !spec_matches_at(s, 0, "{\"output\":"@) {
        None
    } else {
        match spec_parse_json_string(s, "{\"output\":"@.len() as int) {
            None => None,
            Some((v1, i1)) => if !spec_matches_at(s, i1, ",\"raw_request\":"@) {
                None
            } else {
                match spec_parse_json_string(s, i1 + ",\"raw_request\":"@.len()) {
                    None => None,
                    Some((v2, i2)) => if !spec_matches_at(s, i2, ",\"raw_response\":"@) {
                        None
                    } else {
                        match spec_parse_json_string(s, i2 + ",\"raw_response\":"@.len()) {
                            None => None,
                            Some((v3, i3)) => if i3 < s.len() && s[i3] == '}' && spec_all_ws(
                                s,
                                i3 + 1,
                            ) {
                                Some((v1, v2, v3))
                            } else {
                                None
                            },
                        }
                    },
                }
            },
        }
    }
}

/// Parses one result row, as [`spec_parse_lookup_row`] states it.
pub fn parse_lookup_row(s: &str) -> (r: Option<(String, String, String)>)
    ensures
        match r {
            Some(p) => spec_parse_lookup_row(s@) == Some((p.0@, p.1@, p.2@)),
            None => spec_parse_lookup_row(s@) is None,
        },
{
    let n = s.unicode_len();
    if !starts_with_at(s, 0, "{\"output\":") {
        return None;
    }
    let h1 = "{\"output\":".unicode_len();
    let (v1, i1) = match parse_json_string(s, h1) {
        Some(p) => p,
        None => {
            return None;
        },
    };
    proof {
        lemma_parse_json_string_bounds(s@, h1 as int);
    }
    if !starts_with_at(s, i1, ",\"raw_request\":") {
        return None;
    }
    let h2 = ",\"raw_request\":".unicode_len();
    let (v2, i2) = match parse_json_string(s, i1 + h2) {
        Some(p) => p,
        None => {
            return None;
        },
    };
    proof {
        lemma_parse_json_string_bounds(s@, i1 as int + h2 as int);
    }
    if !starts_with_at(s, i2, ",\"raw_response\":") {
        return None;
    }
    let h3 = ",\"raw_response\":".unicode_len();
    let (v3, i3) = match parse_json_string(s, i2 + h3) {
        Some(p) => p,
        None => {
            return None;
        },
    };
    proof {
        lemma_parse_json_string_bounds(s@, i2 as int + h3 as int);
    }
    if i3 < n && s.get_char(i3) == '}' && all_ws_from(s, i3 + 1) {
        Some((v1, v2, v3))
    } else {
        None
    }
}

/// Decodes the raw text a lookup query returned.  An empty text is a
/// plain miss; a non-empty text that does not parse as one well-formed
/// row is a `Cache` error — corruption, not a miss.
pub fn decode_lookup_result(raw: &str) -> (r: Result<Option<CacheLookupResult>, CacheError>)
    ensures
        raw@.len() == 0 ==> (r matches Ok(o) && o is None),
        raw@.len() > 0 ==> match spec_parse_lookup_row(raw@) {
            None => r matches Err(e) && e is Cache,
            Some(cols) => match spec_parse_blocks(cols.0) {
                None => r matches Err(e) && e is Cache,
                Some(blocks) => r matches Ok(o) && o matches Some(res) && res@.output == blocks
                    && res@.raw_request == cols.1 && res@.raw_response == cols.2,
            },
        },
{
    if s_is_empty(raw) {
        return Ok(None);
    }
    let (v1, v2, v3) = match parse_lookup_row(raw) {
        Some(p) => p,
        None => {
            return Err(
                CacheError::Cache {
                    message: String::from_str("failed to decode a cached row: malformed result"),
                },
            );
        },
    };
    let output = match parse_blocks(v1.as_str()) {
        Some(bs) => bs,
        None => {
            return Err(
                CacheError::Cache {
                    message: String::from_str(
                        "failed to decode a cached row: malformed output column",
                    ),
                },
            );
        },
    };
    Ok(Some(CacheLookupResult { output, raw_request: v2, raw_response: v3 }))
}

/// Whether the text is empty.
fn s_is_empty(s: &str) -> (b: bool)
    ensures
        b == (s@.len() == 0),
{
    s.unicode_len() == 0
}

proof fn lemma_window_index(s: Seq<char>, i: int, w: Seq<char>, k: int)
    requires
        0 <= i,
        i + w.len() <= s.len(),
        s.subrange(i, i + w.len()) == w,
        0 <= k < w.len(),
    ensures
        s[i + k] == w[k],
{
    assert(s.subrange(i, i + w.len())[k] == w[k]);
}

proof fn lemma_sub_window(s: Seq<char>, i: int, w: Seq<char>, a: int, b: int)
    requires
        0 <= i,
        i + w.len() <= s.len(),
        s.subrange(i, i + w.len()) == w,
        0 <= a <= b <= w.len(),
    ensures
        s.subrange(i + a, i + b) == w.subrange(a, b),
{
    s.lemma_slice_of_slice(i, i + w.len() as int, a, b);
    assert(s.subrange(i + a, i + b) == w.subrange(a, b));
}

/// Parsing a block at a position where the canonical encoder wrote one
/// gives back exactly that block.
#[verifier::rlimit(60)]
pub proof fn lemma_parse_block_of_serialize(s: Seq<char>, i: int, b: ContentBlockView)
    requires
        0 <= i,
        i + spec_serialize_block(b).len() <= s.len(),
        s.subrange(i, i + spec_serialize_block(b).len()) == spec_serialize_block(b),
    ensures
        spec_parse_block(s, i) == Some((b, i + spec_serialize_block(b).len())),
{
    let w = spec_serialize_block(b);
    reveal_strlit("{\"type\":\"text\",\"text\":");
    reveal_strlit("{\"type\":\"tool_call\",\"id\":");
    reveal_strlit("{\"type\":\"tool_result\",\"id\":");
    reveal_strlit(",\"name\":");
    reveal_strlit(",\"arguments\":");
    reveal_strlit(",\"result\":");
    reveal_strlit("}");
    let tlit = "{\"type\":\"text\",\"text\":"@;
    let clit = "{\"type\":\"tool_call\",\"id\":"@;
    let rlit = "{\"type\":\"tool_result\",\"id\":"@;
    match b {
        ContentBlockView::Text { text } => {
            let js = spec_json_string(text);
            assert(w == tlit + js + "}"@);
            lemma_sub_window(s, i, w, 0, tlit.len() as int);
            assert(w.subrange(0, tlit.len() as int) =~= tlit);
            assert(spec_matches_at(s, i, tlit));
            lemma_sub_window(s, i, w, tlit.len() as int, tlit.len() as int + js.len());
            assert(w.subrange(tlit.len() as int, tlit.len() as int + js.len()) =~= js);
            lemma_parse_of_json_string(s, i + tlit.len(), text);
            let j = i + tlit.len() as int + js.len();
            lemma_window_index(s, i, w, tlit.len() as int + js.len());
            assert(w[tlit.len() as int + js.len()] == '}');
            assert(s[j] == '}');
            assert(spec_parse_block(s, i) == Some((b, i + w.len())));
        },
        ContentBlockView::ToolCall { id, name, arguments } => {
            let js1 = spec_json_string(id);
            let js2 = spec_json_string(name);
            let js3 = spec_json_string(arguments);
            let nlit = ",\"name\":"@;
            let alit = ",\"arguments\":"@;
            assert(w == clit + js1 + nlit + js2 + alit + js3 + "}"@);
            assert(!spec_matches_at(s, i, tlit)) by {
                if spec_matches_at(s, i, tlit) {
                    assert(s.subrange(i, i + tlit.len())[10] == tlit[10]);
                    lemma_window_index(s, i, w, 10);
                    assert(w[10] == clit[10]);
                }
            }
            lemma_sub_window(s, i, w, 0, clit.len() as int);
            assert(w.subrange(0, clit.len() as int) =~= clit);
            assert(spec_matches_at(s, i, clit));
            let o1 = clit.len() as int;
            lemma_sub_window(s, i, w, o1, o1 + js1.len());
            assert(w.subrange(o1, o1 + js1.len()) =~= js1);
            lemma_parse_of_json_string(s, i + o1, id);
            let o2 = o1 + js1.len();
            lemma_sub_window(s, i, w, o2, o2 + nlit.len());
            assert(w.subrange(o2, o2 + nlit.len()) =~= nlit);
            assert(spec_matches_at(s, i + o2, nlit));
            let o3 = o2 + nlit.len();
            lemma_sub_window(s, i, w, o3, o3 + js2.len());
            assert(w.subrange(o3, o3 + js2.len()) =~= js2);
            lemma_parse_of_json_string(s, i + o3, name);
            let o4 = o3 + js2.len();
            lemma_sub_window(s, i, w, o4, o4 + alit.len());
            assert(w.subrange(o4, o4 + alit.len()) =~= alit);
            assert(spec_matches_at(s, i + o4, alit));
            let o5 = o4 + alit.len();
            lemma_sub_window(s, i, w, o5, o5 + js3.len());
            assert(w.subrange(o5, o5 + js3.len()) =~= js3);
            lemma_parse_of_json_string(s, i + o5, arguments);
            let o6 = o5 + js3.len();
            lemma_window_index(s, i, w, o6);
            assert(w[o6] == '}');
            assert(s[i + o6] == '}');
            assert(spec_parse_block(s, i) == Some((b, i + w.len())));
        },
        ContentBlockView::ToolResult { id, name, result } => {
            let js1 = spec_json_string(id);
            let js2 = spec_json_string(name);
            let js3 = spec_json_string(result);
            let nlit = ",\"name\":"@;
            let alit = ",\"result\":"@;
            assert(w == rlit + js1 + nlit + js2 + alit + js3 + "}"@);
            assert(!spec_matches_at(s, i, tlit)) by {
                if spec_matches_at(s, i, tlit) {
                    assert(s.subrange(i, i + tlit.len())[10] == tlit[10]);
                    lemma_window_index(s, i, w, 10);
                    assert(w[10] == rlit[10]);
                }
            }
            assert(!spec_matches_at(s, i, clit)) by {
                if spec_matches_at(s, i, clit) {
                    assert(s.subrange(i, i + clit.len())[14] == clit[14]);
                    lemma_window_index(s, i, w, 14);
                    assert(w[14] == rlit[14]);
                }
            }
            lemma_sub_window(s, i, w, 0, rlit.len() as int);
            assert(w.subrange(0, rlit.len() as int) =~= rlit);
            assert(spec_matches_at(s, i, rlit));
            let o1 = rlit.len() as int;
            lemma_sub_window(s, i, w, o1, o1 + js1.len());
            assert(w.subrange(o1, o1 + js1.len()) =~= js1);
            lemma_parse_of_json_string(s, i + o1, id);
            let o2 = o1 + js1.len();
            lemma_sub_window(s, i, w, o2, o2 + nlit.len());
            assert(w.subrange(o2, o2 + nlit.len()) =~= nlit);
            assert(spec_matches_at(s, i + o2, nlit));
            let o3 = o2 + nlit.len();
            lemma_sub_window(s, i, w, o3, o3 + js2.len());
            assert(w.subrange(o3, o3 + js2.len()) =~= js2);
            lemma_parse_of_json_string(s, i + o3, name);
            let o4 = o3 + js2.len();
            lemma_sub_window(s, i, w, o4, o4 + alit.len());
            assert(w.subrange(o4, o4 + alit.len()) =~= alit);
            assert(spec_matches_at(s, i + o4, alit));
            let o5 = o4 + alit.len();
            lemma_sub_window(s, i, w, o5, o5 + js3.len());
            assert(w.subrange(o5, o5 + js3.len()) =~= js3);
            lemma_parse_of_json_string(s, i + o5, result);
            let o6 = o5 + js3.len();
            lemma_window_index(s, i, w, o6);
            assert(w[o6] == '}');
            assert(s[i + o6] == '}');
            assert(spec_parse_block(s, i) == Some((b, i + w.len())));
        },
    }
}

/// The comma-joined body seen from the front: first block, then a
/// comma and the rest.
proof fn lemma_blocks_body_front(blocks: Seq<ContentBlockView>)
    requires
        blocks.len() >= 1,
    ensures
        crate::request::spec_blocks_body(blocks) == spec_serialize_block(blocks[0]) + (
        if blocks.len() == 1 {
            Seq::<char>::empty()
        } else {
            seq![','] + crate::request::spec_blocks_body(blocks.drop_first())
        }),
    decreases blocks.len(),
{
    let body = crate::request::spec_blocks_body(blocks);
    if blocks.len() == 1 {
        assert(blocks.last() == blocks[0]);
        assert(body =~= spec_serialize_block(blocks[0]) + Seq::<char>::empty());
    } else {
        lemma_blocks_body_front(blocks.drop_last());
        assert(blocks.drop_last()[0] == blocks[0]);
        assert(blocks.drop_last().drop_first() =~= blocks.drop_first().drop_last());
        assert(blocks.drop_first().last() == blocks.last());
        if blocks.len() == 2 {
            assert(body =~= spec_serialize_block(blocks[0]) + (seq![',']
                + crate::request::spec_blocks_body(blocks.drop_first())));
        } else {
            assert(body =~= spec_serialize_block(blocks[0]) + (seq![',']
                + crate::request::spec_blocks_body(blocks.drop_first())));
        }
    }
}

/// Parsing a run of blocks that the canonical encoder wrote, up to a
/// closing bracket, gives back exactly those blocks.
proof fn lemma_parse_blocks_from_of_body(s: Seq<char>, i: int, blocks: Seq<ContentBlockView>)
    requires
        blocks.len() >= 1,
        0 <= i,
        i + crate::request::spec_blocks_body(blocks).len() < s.len(),
        s.subrange(i, i + crate::request::spec_blocks_body(blocks).len())
            == crate::request::spec_blocks_body(blocks),
        s[i + crate::request::spec_blocks_body(blocks).len()] == ']',
    ensures
        spec_parse_blocks_from(s, i) == Some(
            (blocks, i + crate::request::spec_blocks_body(blocks).len()),
        ),
    decreases blocks.len(),
{
    let body = crate::request::spec_blocks_body(blocks);
    let b0 = blocks[0];
    let w0 = spec_serialize_block(b0);
    lemma_blocks_body_front(blocks);
    lemma_sub_window(s, i, body, 0, w0.len() as int);
    assert(body.subrange(0, w0.len() as int) =~= w0);
    lemma_parse_block_of_serialize(s, i, b0);
    let j = i + w0.len();
    assert(w0.len() >= 2);
    if blocks.len() == 1 {
        assert(body =~= w0);
        assert(s[j] == ']');
        assert(spec_parse_blocks_from(s, i) == Some((seq![b0], j)));
        assert(seq![b0] =~= blocks);
    } else {
        let rest = blocks.drop_first();
        let rbody = crate::request::spec_blocks_body(rest);
        assert(body == w0 + (seq![','] + rbody));
        lemma_window_index(s, i, body, w0.len() as int);
        assert(body[w0.len() as int] == ',');
        assert(s[j] == ',');
        lemma_sub_window(s, i, body, w0.len() as int + 1, body.len() as int);
        assert(body.subrange(w0.len() as int + 1, body.len() as int) =~= rbody);
        assert(i + body.len() == j + 1 + rbody.len());
        lemma_parse_blocks_from_of_body(s, j + 1, rest);
        assert(spec_parse_blocks_from(s, i) == Some((seq![b0] + rest, i + body.len())));
        assert(seq![b0] + rest =~= blocks);
    }
}

/// Parsing a whole block-list text that the canonical encoder wrote
/// gives back exactly the blocks that were encoded.
pub proof fn lemma_parse_blocks_roundtrip(blocks: Seq<ContentBlockView>)
    ensures
        spec_parse_blocks(spec_serialize_blocks(blocks)) == Some(blocks),
{
    let body = crate::request::spec_blocks_body(blocks);
    let s = spec_serialize_blocks(blocks);
    assert(s == seq!['['] + body + seq![']']);
    assert(s[0] == '[');
    assert(s.len() == 2 + body.len());
    if blocks.len() == 0 {
        assert(body =~= Seq::<char>::empty());
        assert(s[1] == ']');
        assert(spec_parse_blocks(s) == Some(Seq::<ContentBlockView>::empty()));
        assert(Seq::<ContentBlockView>::empty() =~= blocks);
    } else {
        reveal_strlit("{\"type\":\"text\",\"text\":");
        reveal_strlit("{\"type\":\"tool_call\",\"id\":");
        reveal_strlit("{\"type\":\"tool_result\",\"id\":");
        lemma_blocks_body_front(blocks);
        assert(body[0] == spec_serialize_block(blocks[0])[0]);
        assert(spec_serialize_block(blocks[0])[0] == '{') by {
            match blocks[0] {
                ContentBlockView::Text { text } => {},
                ContentBlockView::ToolCall { id, name, arguments } => {},
                ContentBlockView::ToolResult { id, name, result } => {},
            }
        }
        assert(s[1] == body[0]);
        assert(s[1] != ']');
        assert(s.subrange(1, 1 + body.len() as int) =~= body);
        assert(s[1 + body.len() as int] == ']');
        lemma_parse_blocks_from_of_body(s, 1, blocks);
        assert(spec_parse_blocks(s) == Some(blocks));
    }
}

proof fn lemma_parse_lookup_row_inner(
    s: Seq<char>,
    bt: Seq<char>,
    rr: Seq<char>,
    rsp: Seq<char>,
    o1: int,
    o2: int,
    o3: int,
    o4: int,
    o5: int,
    o6: int,
)
    requires
        o1 == "{\"output\":"@.len(),
        spec_matches_at(s, 0, "{\"output\":"@),
        s.subrange(o1, o1 + spec_json_string(bt).len()) == spec_json_string(bt),
        o2 == o1 + spec_json_string(bt).len(),
        spec_matches_at(s, o2, ",\"raw_request\":"@),
        o3 == o2 + ",\"raw_request\":"@.len(),
        s.subrange(o3, o3 + spec_json_string(rr).len()) == spec_json_string(rr),
        o4 == o3 + spec_json_string(rr).len(),
        spec_matches_at(s, o4, ",\"raw_response\":"@),
        o5 == o4 + ",\"raw_response\":"@.len(),
        s.subrange(o5, o5 + spec_json_string(rsp).len()) == spec_json_string(rsp),
        o6 == o5 + spec_json_string(rsp).len(),
        o6 < s.len(),
        s[o6] == '}',
        spec_all_ws(s, o6 + 1),
    ensures
        spec_parse_lookup_row(s) == Some((bt, rr, rsp)),
{
    lemma_parse_of_json_string(s, o1, bt);
    lemma_parse_of_json_string(s, o3, rr);
    lemma_parse_of_json_string(s, o5, rsp);
}

/// Parsing the row text a lookup gets back for a row this crate wrote
/// recovers the three columns exactly; decoding the output column
/// recovers the blocks exactly.  Together with the contracts of
/// `decode_lookup_result`, what a lookup returns is what was written.
#[verifier::rlimit(100)]
#[verifier::spinoff_prover]
pub proof fn lemma_lookup_row_roundtrip(
    output: Seq<ContentBlockView>,
    raw_request: Seq<char>,
    raw_response: Seq<char>,
    trailing: Seq<char>,
)
    requires
        forall|j: int| 0 <= j < trailing.len() ==> spec_is_ws(trailing[j]),
    ensures
        spec_parse_lookup_row(spec_lookup_row_text(output, raw_request, raw_response) + trailing)
            == Some((spec_serialize_blocks(output), raw_request, raw_response)),
        spec_parse_blocks(spec_serialize_blocks(output)) == Some(output),
{
    reveal_strlit("}");
    lemma_parse_blocks_roundtrip(output);
    let w = spec_lookup_row_text(output, raw_request, raw_response);
    let s = w + trailing;
    let l1 = "{\"output\":"@;
    let l2 = ",\"raw_request\":"@;
    let l3 = ",\"raw_response\":"@;
    let js1 = spec_json_string(spec_serialize_blocks(output));
    let js2 = spec_json_string(raw_request);
    let js3 = spec_json_string(raw_response);
    assert(w == l1 + js1 + l2 + js2 + l3 + js3 + "}"@);
    assert(s.subrange(0, w.len() as int) =~= w);
    let o1 = l1.len() as int;
    let o2 = o1 + js1.len();
    let o3 = o2 + l2.len();
    let o4 = o3 + js2.len();
    let o5 = o4 + l3.len();
    let o6 = o5 + js3.len();
    assert(spec_matches_at(s, 0, l1)) by {
        lemma_sub_window(s, 0, w, 0, o1);
        assert(w.subrange(0, o1) =~= l1);
    }
    assert(s.subrange(o1, o2) == js1) by {
        lemma_sub_window(s, 0, w, o1, o2);
        assert(w.subrange(o1, o2) =~= js1);
    }
    assert(spec_matches_at(s, o2, l2)) by {
        lemma_sub_window(s, 0, w, o2, o3);
        assert(w.subrange(o2, o3) =~= l2);
    }
    assert(s.subrange(o3, o4) == js2) by {
        lemma_sub_window(s, 0, w, o3, o4);
        assert(w.subrange(o3, o4) =~= js2);
    }
    assert(spec_matches_at(s, o4, l3)) by {
        lemma_sub_window(s, 0, w, o4, o5);
        assert(w.subrange(o4, o5) =~= l3);
    }
    assert(s.subrange(o5, o6) == js3) by {
        lemma_sub_window(s, 0, w, o5, o6);
        assert(w.subrange(o5, o6) =~= js3);
    }
    assert(s[o6] == '}') by {
        lemma_window_index(s, 0, w, o6);
        assert(w[o6] == '}');
    }
    assert(spec_all_ws(s, o6 + 1)) by {
        assert forall|j: int| o6 + 1 <= j < s.len() implies spec_is_ws(s[j]) by {
            assert(s[j] == trailing[j - w.len()]);
        }
    }
    lemma_parse_lookup_row_inner(
        s,
        spec_serialize_blocks(output),
        raw_request,
        raw_response,
        o1,
        o2,
        o3,
        o4,
        o5,
        o6,
    );
}

/// An exact copy of one content block.
pub fn clone_block(b: &ContentBlock) -> (r: ContentBlock)
    ensures
        r@ == b@,
{
    match b {
        ContentBlock::Text { text } => ContentBlock::Text { text: text.clone() },
        ContentBlock::ToolCall { id, name, arguments } => ContentBlock::ToolCall {
            id: id.clone(),
            name: name.clone(),
            arguments: arguments.clone(),
        },
        ContentBlock::ToolResult { id, name, result } => ContentBlock::ToolResult {
            id: id.clone(),
            name: name.clone(),
            result: result.clone(),
        },
    }
}

/// An exact copy of a block list.
pub fn clone_blocks(v: &Vec<ContentBlock>) -> (r: Vec<ContentBlock>)
    ensures
        view_blocks(r@) == view_blocks(v@),
{
    let mut out: Vec<ContentBlock> = Vec::new();
    let n = v.len();
    let mut i: usize = 0;
    while i < n
        invariant
            i <= n == v@.len(),
            view_blocks(out@) =~= view_blocks(v@.take(i as int)),
        decreases n - i,
    {
        let ghost prev = out@;
        out.push(clone_block(&v[i]));
        proof {
            assert(view_blocks(prev).len() == prev.len());
            assert(view_blocks(v@.take(i as int)).len() == i as int);
            assert(prev.len() == i as int);
            assert(out@ == prev.push(out@[i as int]));
            assert forall|k: int| 0 <= k <= i as int implies view_blocks(out@)[k] == view_blocks(
                v@.take(i as int + 1),
            )[k] by {
                if k < i as int {
                    assert(view_blocks(prev)[k] == view_blocks(v@.take(i as int))[k]);
                    assert(view_blocks(prev)[k] == prev[k]@);
                    assert(view_blocks(v@.take(i as int))[k] == v@.take(i as int)[k]@);
                    assert(view_blocks(out@)[k] == out@[k]@);
                    assert(view_blocks(v@.take(i as int + 1))[k] == v@.take(i as int + 1)[k]@);
                }
            }
            assert(view_blocks(out@) =~= view_blocks(v@.take(i as int + 1)));
        }
        i = i + 1;
    }
    assert(v@.take(n as int) =~= v@);
    assert(view_blocks(out@) =~= view_blocks(v@));
    out
}

} // verus!
