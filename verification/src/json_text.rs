//! The textual layer of the cache's canonical encoding: JSON string
//! escaping with its exact specification, and a verified parser for the
//! string literals that appear in stored rows.
//!
//! The encoder escapes `"` and `\` with a backslash and every control
//! character as `\u00XX`; everything else is kept as it is.  The parser
//! accepts that canonical form plus the other escapes a store may emit
//! (`\/`, `\n`, `\r`, `\t`, `\b`, `\f`, and `\u00XX` with upper- or
//! lowercase digits); a `\uXXXX` escape above `ÿ` is rejected, as
//! rows written through this crate never contain one.

use crate::ext::spec_hex_digit;
use vstd::prelude::*;

verus! {

/// The canonical escaped form of one character inside a JSON string.
pub open spec fn spec_escape_char(c: char) -> Seq<char> {
    if c == '"' {
        seq!['\\', '"']
    } else if c == '\\' {
        seq!['\\', '\\']
    } else if (c as u32) < 32 {
        seq![
            '\\',
            'u',
            '0',
            '0',
            spec_hex_digit((c as u32 / 16) as nat),
            spec_hex_digit((c as u32 % 16) as nat),
        ]
    } else {
        seq![c]
    }
}

/// The canonical escaped form of a whole character sequence.
pub open spec fn spec_escape(s: Seq<char>) -> Seq<char>
    decreases s.len(),
{
    if s.len() == 0 {
        Seq::empty()
    } else {
        spec_escape_char(s[0]) + spec_escape(s.drop_first())
    }
}

/// A complete JSON string literal: the escaped content in quotes.
pub open spec fn spec_json_string(s: Seq<char>) -> Seq<char> {
    seq!['"'] + spec_escape(s) + seq!['"']
}

pub proof fn lemma_escape_snoc(s: Seq<char>, c: char)
    ensures
        spec_escape(s.push(c)) == spec_escape(s) + spec_escape_char(c),
    decreases s.len(),
{
    if s.len() == 0 {
        assert(s.push(c).drop_first() =~= Seq::<char>::empty());
        assert(spec_escape(Seq::<char>::empty()) =~= Seq::<char>::empty());
        assert(spec_escape(s.push(c)) =~= spec_escape(s) + spec_escape_char(c));
    } else {
        assert(s.push(c).drop_first() =~= s.drop_first().push(c));
        lemma_escape_snoc(s.drop_first(), c);
        assert(spec_escape(s.push(c)) =~= spec_escape(s) + spec_escape_char(c));
    }
}

/// The numeric value of a hexadecimal digit, either case.
pub open spec fn spec_hex_val(c: char) -> Option<u8> {
    let v = c as u32;
    if 48 <= v && v <= 57 {
        Some((v - 48) as u8)
    } else if 97 <= v && v <= 102 {
        Some((v - 87) as u8)
    } else if 65 <= v && v <= 70 {
        Some((v - 55) as u8)
    } else {
        None
    }
}

/// The character a single-letter escape code stands for.
pub open spec fn spec_escape_code(e: char) -> Option<char> {
    if e == '"' {
        Some('"')
    } else if e == '\\' {
        Some('\\')
    } else if e == '/' {
        Some('/')
    } else if e == 'n' {
        Some('\n')
    } else if e == 't' {
        Some('\t')
    } else if e == 'r' {
        Some('\r')
    } else if e == 'b' {
        Some(8u8 as char)
    } else if e == 'f' {
        Some(12u8 as char)
    } else {
        None
    }
}

/// Parses the body of a JSON string in `s` from position `i` up to and
/// including the closing quote.  Returns the decoded content and the
/// position just after the closing quote, or `None` when the text up to
/// the next unescaped quote is not a well-formed string body.
pub open spec fn spec_parse_string_body(s: Seq<char>, i: int) -> Option<(Seq<char>, int)>
    recommends
        0 <= i <= s.len(),
    decreases s.len() - i when 0 <= i <= s.len()
{
    if i >= s.len() {
        None
    } else {
        let c = s[i];
        if c == '"' {
            Some((Seq::empty(), i + 1))
        } else if c == '\\' {
            if i + 1 >= s.len() {
                None
            } else {
                let e = s[i + 1];
                if spec_escape_code(e) is Some {
                    match spec_parse_string_body(s, i + 2) {
                        Some((content, j)) => Some(
                            (seq![spec_escape_code(e).unwrap()] + content, j),
                        ),
                        None => None,
                    }
                } else if e == 'u' {
                    if i + 6 <= s.len() && s[i + 2] == '0' && s[i + 3] == '0' && spec_hex_val(
                        s[i + 4],
                    ) is Some && spec_hex_val(s[i + 5]) is Some {
                        let v = spec_hex_val(s[i + 4]).unwrap() * 16 + spec_hex_val(s[i + 5]).unwrap();
                        match spec_parse_string_body(s, i + 6) {
                            Some((content, j)) => Some((seq![(v as u8) as char] + content, j)),
                            None => None,
                        }
                    } else {
                        None
                    }
                } else {
                    None
                }
            }
        } else if (c as u32) < 32 {
            None
        } else {
            match spec_parse_string_body(s, i + 1) {
                Some((content, j)) => Some((seq![c] + content, j)),
                None => None,
            }
        }
    }
}

/// Parses a complete JSON string literal (opening quote included)
/// at position `i`.
pub open spec fn spec_parse_json_string(s: Seq<char>, i: int) -> Option<(Seq<char>, int)>
    recommends
        0 <= i <= s.len(),
{
    if i < s.len() && s[i] == '"' {
        spec_parse_string_body(s, i + 1)
    } else {
        None
    }
}

/// One hexadecimal digit as a lowercase character.
fn hex_digit_char(d: u8) -> (c: char)
    requires
        d < 16,
    ensures
        c == spec_hex_digit(d as nat),
{
    if d < 10 {
        (d + 48) as char
    } else {
        (d + 87) as char
    }
}

/// Appends the canonical escaped form of `src` to `out`.
pub fn escape_into(src: &str, out: &mut String)
    ensures
        final(out)@ == old(out)@ + spec_escape(src@),
{
    let n = src.unicode_len();
    let mut i: usize = 0;
    while i < n
        invariant
            i <= n == src@.len(),
            out@ == old(out)@ + spec_escape(src@.take(i as int)),
        decreases n - i,
    {
        let c = src.get_char(i);
        proof {
            assert(src@.take(i as int + 1) =~= src@.take(i as int).push(c));
            lemma_escape_snoc(src@.take(i as int), c);
        }
        let code = c as u32;
        if c == '"' {
            out.push('\\');
            out.push('"');
        } else if c == '\\' {
            out.push('\\');
            out.push('\\');
        } else if code < 32 {
            out.push('\\');
            out.push('u');
            out.push('0');
            out.push('0');
            out.push(hex_digit_char((code / 16) as u8));
            out.push(hex_digit_char((code % 16) as u8));
        } else {
            out.push(c);
        }
        assert(out@ =~= old(out)@ + spec_escape(src@.take(i as int + 1)));
        i = i + 1;
    }
    assert(src@.take(n as int) =~= src@);
}

/// Appends `src` as a complete JSON string literal to `out`.
pub fn push_json_string(src: &str, out: &mut String)
    ensures
        final(out)@ == old(out)@ + spec_json_string(src@),
{
    out.push('"');
    escape_into(src, out);
    out.push('"');
    assert(out@ =~= old(out)@ + spec_json_string(src@));
}

/// The numeric value of a hexadecimal digit character, either case.
fn hex_val(c: char) -> (r: Option<u8>)
    ensures
        r == spec_hex_val(c),
{
    let v = c as u32;
    if 48 <= v && v <= 57 {
        Some((v - 48) as u8)
    } else if 97 <= v && v <= 102 {
        Some((v - 87) as u8)
    } else if 65 <= v && v <= 70 {
        Some((v - 55) as u8)
    } else {
        None
    }
}

/// The character a single-letter escape code stands for.
fn escape_code(e: char) -> (r: Option<char>)
    ensures
        r == spec_escape_code(e),
{
    if e == '"' {
        Some('"')
    } else if e == '\\' {
        Some('\\')
    } else if e == '/' {
        Some('/')
    } else if e == 'n' {
        Some('\n')
    } else if e == 't' {
        Some('\t')
    } else if e == 'r' {
        Some('\r')
    } else if e == 'b' {
        Some(8u8 as char)
    } else if e == 'f' {
        Some(12u8 as char)
    } else {
        None
    }
}

/// Parses the body of a JSON string in `s` from `start` (just after the
/// opening quote), as [`spec_parse_string_body`] states it.
pub fn parse_string_body(s: &str, start: usize) -> (r: Option<(String, usize)>)
    requires
        start <= s@.len(),
    ensures
        match r {
            Some(p) => spec_parse_string_body(s@, start as int) == Some((p.0@, p.1 as int)),
            None => spec_parse_string_body(s@, start as int) is None,
        },
{
    let n = s.unicode_len();
    let mut j: usize = start;
    let mut out = String::new();
    loop
        invariant
            start <= j <= n == s@.len(),
            match spec_parse_string_body(s@, j as int) {
                Some(p) => spec_parse_string_body(s@, start as int) == Some((out@ + p.0, p.1)),
                None => spec_parse_string_body(s@, start as int) is None,
            },
        decreases n - j,
    {
        if j >= n {
            return None;
        }
        let c = s.get_char(j);
        if c == '"' {
            assert(out@ + Seq::<char>::empty() =~= out@);
            return Some((out, j + 1));
        } else if c == '\\' {
            if j + 1 >= n {
                return None;
            }
            let e = s.get_char(j + 1);
            match escape_code(e) {
                Some(decoded) => {
                    proof {
                        let rest = spec_parse_string_body(s@, j as int + 2);
                        if rest is Some {
                            assert(out@ + (seq![decoded] + rest.unwrap().0) =~= (out@
                                + seq![decoded]) + rest.unwrap().0);
                        }
                    }
                    out.push(decoded);
                    j = j + 2;
                },
                None => {
                    if e != 'u' {
                        return None;
                    }
                    if n - j < 6 {
                        return None;
                    }
                    if s.get_char(j + 2) != '0' || s.get_char(j + 3) != '0' {
                        return None;
                    }
                    let h1 = match hex_val(s.get_char(j + 4)) {
                        Some(v) => v,
                        None => {
                            return None;
                        },
                    };
                    let h2 = match hex_val(s.get_char(j + 5)) {
                        Some(v) => v,
                        None => {
                            return None;
                        },
                    };
                    let decoded = (h1 * 16 + h2) as char;
                    proof {
                        let rest = spec_parse_string_body(s@, j as int + 6);
                        if rest is Some {
                            assert(out@ + (seq![decoded] + rest.unwrap().0) =~= (out@
                                + seq![decoded]) + rest.unwrap().0);
                        }
                    }
                    out.push(decoded);
                    j = j + 6;
                },
            }
        } else if (c as u32) < 32 {
            return None;
        } else {
            proof {
                let rest = spec_parse_string_body(s@, j as int + 1);
                if rest is Some {
                    assert(out@ + (seq![c] + rest.unwrap().0) =~= (out@ + seq![c])
                        + rest.unwrap().0);
                }
            }
            out.push(c);
            j = j + 1;
        }
    }
}

/// Parses a complete JSON string literal at position `i`, as
/// [`spec_parse_json_string`] states it.
pub fn parse_json_string(s: &str, i: usize) -> (r: Option<(String, usize)>)
    requires
        i <= s@.len(),
    ensures
        match r {
            Some(p) => spec_parse_json_string(s@, i as int) == Some((p.0@, p.1 as int)),
            None => spec_parse_json_string(s@, i as int) is None,
        },
{
    let n = s.unicode_len();
    if i >= n {
        return None;
    }
    if s.get_char(i) != '"' {
        return None;
    }
    parse_string_body(s, i + 1)
}

/// A digit written by the canonical hex encoder reads back as itself.
pub proof fn lemma_hex_val_of_digit(d: nat)
    requires
        d < 16,
    ensures
        spec_hex_val(spec_hex_digit(d)) == Some(d as u8),
{
    if d < 10 {
        assert(spec_hex_digit(d) as u32 == d + 48);
    } else {
        assert(spec_hex_digit(d) as u32 == d + 87);
    }
}

/// Parsing a string body that was written by the canonical escaper
/// gives back exactly the content that was escaped.
pub proof fn lemma_parse_of_escape(s: Seq<char>, i: int, content: Seq<char>)
    requires
        0 <= i,
        i + spec_escape(content).len() + 1 <= s.len(),
        s.subrange(i, i + spec_escape(content).len() + 1) == spec_escape(content) + seq!['"'],
    ensures
        spec_parse_string_body(s, i) == Some((content, i + spec_escape(content).len() + 1)),
    decreases content.len(),
{
    let esc = spec_escape(content);
    let window = s.subrange(i, i + esc.len() + 1);
    if content.len() == 0 {
        assert(esc =~= Seq::<char>::empty());
        assert(s[i] == '"') by {
            assert(window[0] == (esc + seq!['"'])[0]);
        }
        assert(spec_parse_string_body(s, i) == Some((Seq::<char>::empty(), i + 1)));
    } else {
        let c = content[0];
        let rest = content.drop_first();
        let ec = spec_escape_char(c);
        let esc_rest = spec_escape(rest);
        assert(esc == ec + esc_rest);
        assert forall|k: int| 0 <= k < ec.len() implies s[i + k] == ec[k] by {
            assert(window[k] == (esc + seq!['"'])[k]);
        }
        assert forall|k: int| 0 <= k < esc_rest.len() + 1 implies s[i + ec.len() + k] == (esc_rest
            + seq!['"'])[k] by {
            assert(window[ec.len() + k] == (esc + seq!['"'])[ec.len() + k]);
        }
        assert(s.subrange(i + ec.len(), i + ec.len() + esc_rest.len() + 1) =~= esc_rest
            + seq!['"']);
        lemma_parse_of_escape(s, i + ec.len(), rest);
        assert(seq![c] + rest =~= content);
        if c == '"' {
            assert(s[i] == '\\' && s[i + 1] == '"');
            assert(spec_escape_code('"') == Some('"'));
        } else if c == '\\' {
            assert(s[i] == '\\' && s[i + 1] == '\\');
            assert(spec_escape_code('\\') == Some('\\'));
        } else if (c as u32) < 32 {
            let v = c as u32;
            assert(s[i] == '\\' && s[i + 1] == 'u' && s[i + 2] == '0' && s[i + 3] == '0');
            assert(s[i + 4] == spec_hex_digit((v / 16) as nat));
            assert(s[i + 5] == spec_hex_digit((v % 16) as nat));
            assert(spec_escape_code('u') is None);
            lemma_hex_val_of_digit((v / 16) as nat);
            lemma_hex_val_of_digit((v % 16) as nat);
            let dec = spec_hex_val(s[i + 4]).unwrap() * 16 + spec_hex_val(s[i + 5]).unwrap();
            assert(dec == v);
            let x = (dec as u8) as char;
            assert(x as u32 == dec);
            vstd::utf8::char_u32_cast(x, x as u32);
            vstd::utf8::char_u32_cast(c, c as u32);
            assert(x == c);
        } else {
            assert(s[i] == c);
        }
    }
}

/// Parsing a complete JSON string literal that the canonical encoder
/// wrote gives back exactly the content that was encoded.
pub proof fn lemma_parse_of_json_string(s: Seq<char>, i: int, content: Seq<char>)
    requires
        0 <= i,
        i + spec_json_string(content).len() <= s.len(),
        s.subrange(i, i + spec_json_string(content).len()) == spec_json_string(content),
    ensures
        spec_parse_json_string(s, i) == Some((content, i + spec_json_string(content).len())),
{
    let esc = spec_escape(content);
    let lit = spec_json_string(content);
    let window = s.subrange(i, i + lit.len());
    assert(s[i] == '"') by {
        assert(window[0] == lit[0]);
    }
    assert forall|k: int| 0 <= k < esc.len() + 1 implies s[i + 1 + k] == (esc + seq!['"'])[k] by {
        assert(window[1 + k] == lit[1 + k]);
        assert(lit[1 + k] == (esc + seq!['"'])[k]);
    }
    assert(s.subrange(i + 1, i + 1 + esc.len() + 1) =~= esc + seq!['"']);
    lemma_parse_of_escape(s, i + 1, content);
}

/// True when `lit` occurs in `s` exactly at position `i`.
pub open spec fn spec_matches_at(s: Seq<char>, i: int, lit: Seq<char>) -> bool {
    0 <= i && i + lit.len() <= s.len() && s.subrange(i, i + lit.len()) == lit
}

/// Compares the text at position `i` of `s` against `lit`, as
/// [`spec_matches_at`] states it.
pub fn starts_with_at(s: &str, i: usize, lit: &str) -> (b: bool)
    requires
        i <= s@.len(),
    ensures
        b == spec_matches_at(s@, i as int, lit@),
{
    let n = s.unicode_len();
    let ll = lit.unicode_len();
    if ll > n - i {
        assert(!spec_matches_at(s@, i as int, lit@));
        return false;
    }
    let mut j: usize = 0;
    while j < ll
        invariant
            j <= ll == lit@.len(),
            i + ll <= n == s@.len(),
            forall|k: int| 0 <= k < j ==> s@[i + k] == lit@[k],
        decreases ll - j,
    {
        if s.get_char(i + j) != lit.get_char(j) {
            assert(s@.subrange(i as int, i as int + lit@.len())[j as int] != lit@[j as int]);
            return false;
        }
        j = j + 1;
    }
    assert(s@.subrange(i as int, i as int + lit@.len()) =~= lit@);
    true
}

/// A whitespace character a store may append after a result row.
pub open spec fn spec_is_ws(c: char) -> bool {
    c == ' ' || c == '\n' || c == '\r' || c == '\t'
}

/// True when everything from position `i` to the end of `s` is
/// whitespace.
pub open spec fn spec_all_ws(s: Seq<char>, i: int) -> bool {
    forall|j: int| i <= j < s.len() ==> spec_is_ws(s[j])
}

/// Checks that everything from position `i` on is whitespace, as
/// [`spec_all_ws`] states it.
pub fn all_ws_from(s: &str, i: usize) -> (b: bool)
    requires
        i <= s@.len(),
    ensures
        b == spec_all_ws(s@, i as int),
{
    let n = s.unicode_len();
    let mut j: usize = i;
    while j < n
        invariant
            i <= j <= n == s@.len(),
            forall|k: int| i <= k < j ==> spec_is_ws(s@[k]),
        decreases n - j,
    {
        let c = s.get_char(j);
        if !(c == ' ' || c == '\n' || c == '\r' || c == '\t') {
            return false;
        }
        j = j + 1;
    }
    true
}

} // verus!
