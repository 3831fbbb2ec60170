//! Decimal formatting of the integers that appear in query parameters
//! and in the canonical request encoding, with its exact specification.

use vstd::prelude::*;

verus! {

/// The character for one decimal digit.
pub open spec fn spec_decimal_digit(d: nat) -> char
    recommends
        d < 10,
{
    ((d + 48) as u8) as char
}

/// The decimal form of `n`: most significant digit first, no sign, no
/// leading zeros (a single `'0'` for zero).
pub open spec fn spec_u64_decimal(n: nat) -> Seq<char>
    decreases n,
{
    if n < 10 {
        seq![spec_decimal_digit(n)]
    } else {
        spec_u64_decimal(n / 10) + seq![spec_decimal_digit(n % 10)]
    }
}

/// The decimal form of a signed value: a leading `'-'` before the
/// magnitude when negative.
pub open spec fn spec_i32_decimal(v: int) -> Seq<char> {
    if v < 0 {
        seq!['-'] + spec_u64_decimal((-v) as nat)
    } else {
        spec_u64_decimal(v as nat)
    }
}

/// The characters of `s` in reverse order.
spec fn rev_chars(s: Seq<char>) -> Seq<char>
    decreases s.len(),
{
    if s.len() == 0 {
        Seq::empty()
    } else {
        rev_chars(s.drop_first()) + seq![s[0]]
    }
}

proof fn lemma_rev_push(s: Seq<char>, c: char)
    ensures
        rev_chars(s.push(c)) == seq![c] + rev_chars(s),
    decreases s.len(),
{
    assert(rev_chars(Seq::<char>::empty()) =~= Seq::<char>::empty());
    if s.len() == 0 {
        assert(s.push(c).drop_first() =~= Seq::<char>::empty());
        assert(rev_chars(s.push(c)) =~= seq![c] + rev_chars(s));
    } else {
        assert(s.push(c).drop_first() =~= s.drop_first().push(c));
        lemma_rev_push(s.drop_first(), c);
        assert(rev_chars(s.push(c)) =~= seq![c] + rev_chars(s));
    }
}

/// One decimal digit as a character.
fn decimal_digit(d: u8) -> (c: char)
    requires
        d < 10,
    ensures
        c == spec_decimal_digit(d as nat),
{
    (d + 48) as char
}

/// The decimal form of `n`, as [`spec_u64_decimal`] states it.
pub fn u64_to_decimal(n: u64) -> (s: String)
    ensures
        s@ == spec_u64_decimal(n as nat),
{
    let mut digits: Vec<char> = Vec::new();
    let mut m: u64 = n;
    while m >= 10
        invariant
            spec_u64_decimal(n as nat) =~= spec_u64_decimal(m as nat) + rev_chars(digits@),
        decreases m,
    {
        let d: u8 = (m % 10) as u8;
        proof {
            lemma_rev_push(digits@, spec_decimal_digit(d as nat));
        }
        digits.push(decimal_digit(d));
        m = m / 10;
    }
    let d: u8 = m as u8;
    proof {
        lemma_rev_push(digits@, spec_decimal_digit(d as nat));
    }
    digits.push(decimal_digit(d));
    assert(spec_u64_decimal(n as nat) =~= rev_chars(digits@));
    let mut out = String::new();
    let mut i: usize = digits.len();
    while i > 0
        invariant
            i <= digits.len(),
            spec_u64_decimal(n as nat) =~= rev_chars(digits@),
            out@ =~= rev_chars(digits@.subrange(i as int, digits@.len() as int)),
        decreases i,
    {
        i = i - 1;
        proof {
            assert(digits@.subrange(i as int, digits@.len() as int).drop_first() =~= digits@
                .subrange(i as int + 1, digits@.len() as int));
        }
        out.push(digits[i]);
    }
    proof {
        assert(digits@.subrange(0, digits@.len() as int) =~= digits@);
    }
    out
}

/// The decimal form of `v`, as [`spec_i32_decimal`] states it.
pub fn i32_to_decimal(v: i32) -> (s: String)
    ensures
        s@ == spec_i32_decimal(v as int),
{
    if v < 0 {
        let wide: i64 = v as i64;
        let mag: u64 = (-wide) as u64;
        assert(mag as nat == (-(v as int)) as nat);
        let mut out = String::new();
        out.push('-');
        let body = u64_to_decimal(mag);
        out.append(body.as_str());
        assert(out@ =~= spec_i32_decimal(v as int));
        out
    } else {
        let s = u64_to_decimal(v as u64);
        s
    }
}

} // verus!
