//! Fingerprints and the two-tier cache key.
//!
//! A request is fingerprinted by hashing, in order, the model name, a
//! zero byte, the provider name, a zero byte, and the canonical
//! encoding of the request.  The zero-byte separators make the input
//! prefix-free for names without interior zero characters, so two
//! distinct (model, provider) pairs never feed the hash the same bytes.
//! From the 32-byte digest two forms are derived and nothing else: a
//! narrow key (first 8 bytes, little endian, as a 64-bit integer) for
//! indexed equality matching, and a wide key (the full digest in
//! lowercase hex) for exact-match verification.

use crate::errors::CacheError;
use crate::ext::{blake3_digest, blake3_of, hex_encode, spec_hex, spec_hex_byte, spec_hex_digit};
use crate::json_text::lemma_hex_val_of_digit;
use crate::json_text::spec_hex_val;
use crate::request::{spec_serialize_request, ModelInferenceRequest, RequestView};
use vstd::bytes::spec_u64_from_le_bytes;
use vstd::prelude::*;
use vstd::utf8::encode_utf8;

verus! {

/// The bytes fed to the hash: model name, zero byte, provider name,
/// zero byte, canonical request encoding, all UTF-8.
pub open spec fn spec_fingerprint_input(
    model: Seq<char>,
    provider: Seq<char>,
    serialized: Seq<char>,
) -> Seq<u8> {
    encode_utf8(model) + seq![0u8] + encode_utf8(provider) + seq![0u8] + encode_utf8(serialized)
}

/// The 32-byte fingerprint of a (model, provider, request) triple.
pub open spec fn spec_fingerprint(model: Seq<char>, provider: Seq<char>, r: RequestView) -> Seq<
    u8,
> {
    blake3_of(spec_fingerprint_input(model, provider, spec_serialize_request(r)))
}

/// The narrow key: the first 8 digest bytes read as a little-endian
/// 64-bit integer.
pub open spec fn spec_short_key(digest: Seq<u8>) -> u64
    recommends
        digest.len() >= 8,
{
    spec_u64_from_le_bytes(digest.take(8))
}

/// The wide key: the whole digest, hex-encoded in lowercase.
pub open spec fn spec_long_key(digest: Seq<u8>) -> Seq<char> {
    spec_hex(digest)
}

/// A 32-byte fingerprint digest.  Its two presentation forms are
/// always derived, never stored or mutated on their own.
#[derive(Clone, Copy, Debug, PartialEq)]
pub struct CacheKey(pub [u8; 32]);

impl View for CacheKey {
    type V = Seq<u8>;

    open spec fn view(&self) -> Seq<u8> {
        self.0@
    }
}

impl CacheKey {
    /// Wraps an already-computed 32-byte digest.
    pub fn from_digest(digest: [u8; 32]) -> (k: CacheKey)
        ensures
            k@ == digest@,
    {
        CacheKey(digest)
    }

    /// The narrow key of this digest.  The digest always has 32 bytes,
    /// so the derivation cannot fail; the `Result` mirrors a defensive
    /// interface in which a malformed digest would surface as an error.
    pub fn get_short_key(&self) -> (r: Result<u64, CacheError>)
        ensures
            r is Ok,
            r matches Ok(v) ==> v == spec_short_key(self@),
    {
        let mut head: Vec<u8> = Vec::new();
        let mut i: usize = 0;
        while i < 8
            invariant
                i <= 8,
                head@ =~= self@.take(i as int),
            decreases 8 - i,
        {
            head.push(self.0[i]);
            i = i + 1;
        }
        assert(head@ =~= self@.take(8));
        Ok(vstd::bytes::u64_from_le_bytes(head.as_slice()))
    }

    /// The wide key of this digest: 64 lowercase hex characters.
    pub fn get_long_key(&self) -> (s: String)
        ensures
            s@ == spec_long_key(self@),
    {
        hex_encode(self.0.as_slice())
    }
}

/// A provider request together with the model and provider names it
/// was routed under: the unit that gets fingerprinted.  Borrowed for
/// the duration of one cache operation, never retained.
#[derive(Debug, Clone)]
pub struct ModelProviderRequest<'a> {
    pub request: &'a ModelInferenceRequest,
    pub model_name: &'a str,
    pub provider_name: &'a str,
}

impl ModelProviderRequest<'_> {
    /// Computes the fingerprint digest of this request.  The canonical
    /// encoding is total, so every request has a key; the `Result`
    /// mirrors an interface in which an encoding failure would surface
    /// as a `Serialization` error.
    pub fn get_cache_key(&self) -> (r: Result<CacheKey, CacheError>)
        ensures
            r is Ok,
            r matches Ok(k) ==> k@ == spec_fingerprint(
                self.model_name@,
                self.provider_name@,
                self.request@,
            ),
    {
        let serialized = crate::request::serialize_request(self.request);
        let mut input: Vec<u8> = Vec::new();
        let mut part = self.model_name.as_bytes_vec();
        input.append(&mut part);
        input.push(0u8);
        let mut part = self.provider_name.as_bytes_vec();
        input.append(&mut part);
        input.push(0u8);
        let mut part = serialized.as_str().as_bytes_vec();
        input.append(&mut part);
        assert(input@ =~= spec_fingerprint_input(
            self.model_name@,
            self.provider_name@,
            serialized@,
        ));
        let digest = blake3_digest(input.as_slice());
        Ok(CacheKey(digest))
    }
}

/// The fingerprint is a function of the model name, the provider name
/// and the request's mathematical shape alone: structurally identical
/// triples have identical fingerprints.
pub proof fn lemma_fingerprint_deterministic(
    m1: Seq<char>,
    p1: Seq<char>,
    r1: RequestView,
    m2: Seq<char>,
    p2: Seq<char>,
    r2: RequestView,
)
    requires
        m1 == m2,
        p1 == p2,
        r1 == r2,
    ensures
        spec_fingerprint(m1, p1, r1) == spec_fingerprint(m2, p2, r2),
{
}

proof fn lemma_encode_scalar_no_zero(v: u32)
    requires
        v != 0,
    ensures
        forall|k: int|
            0 <= k < vstd::utf8::encode_scalar(v).len() ==> vstd::utf8::encode_scalar(v)[k] != 0,
{
    assert((v >> 6) >> 6 == v >> 12 && (v >> 12) >> 6 == v >> 18) by (bit_vector);
    assert(v < 0x80 ==> (v & 0x7F) as u8 != 0) by (bit_vector)
        requires
            v != 0,
    ;
    assert((0xC0u8 | ((v >> 6) & 0x1F) as u8) != 0) by (bit_vector);
    assert((0xE0u8 | ((v >> 12) & 0x0F) as u8) != 0) by (bit_vector);
    assert((0xF0u8 | ((v >> 18) & 0x7) as u8) != 0) by (bit_vector);
    assert((0x80u8 | (v & 0x3F) as u8) != 0) by (bit_vector);
    assert((0x80u8 | ((v >> 6) & 0x3F) as u8) != 0) by (bit_vector);
    assert((0x80u8 | ((v >> 12) & 0x3F) as u8) != 0) by (bit_vector);
}

/// UTF-8 encodes a zero byte only for the zero character, so a name
/// without interior zero characters encodes to bytes without zeros.
proof fn lemma_encode_utf8_no_zero(s: Seq<char>)
    requires
        !s.contains('\0'),
    ensures
        forall|k: int| 0 <= k < encode_utf8(s).len() ==> encode_utf8(s)[k] != 0,
    decreases s.len(),
{
    if s.len() > 0 {
        let c = s[0];
        assert(c != '\0') by {
            if c == '\0' {
                assert(s[0] == '\0');
                assert(s.contains('\0'));
            }
        }
        assert(c as u32 != 0) by {
            if c as u32 == 0 {
                vstd::utf8::char_u32_cast(c, c as u32);
                vstd::utf8::char_u32_cast('\0', 0u32);
            }
        }
        lemma_encode_scalar_no_zero(c as u32);
        assert(!s.drop_first().contains('\0')) by {
            if s.drop_first().contains('\0') {
                let j = choose|j: int| 0 <= j < s.drop_first().len() && s.drop_first()[j] == '\0';
                assert(s[j + 1] == '\0');
                assert(s.contains('\0'));
            }
        }
        lemma_encode_utf8_no_zero(s.drop_first());
        let e = vstd::utf8::encode_scalar(c as u32);
        assert(encode_utf8(s) == e + encode_utf8(s.drop_first()));
        assert forall|k: int| 0 <= k < encode_utf8(s).len() implies encode_utf8(s)[k] != 0 by {
            if k < e.len() {
                assert(encode_utf8(s)[k] == e[k]);
            } else {
                assert(encode_utf8(s)[k] == encode_utf8(s.drop_first())[k - e.len()]);
            }
        }
    }
}

/// Prefix-freedom of the hash input: for model and provider names
/// without interior zero characters, two triples feed the hash the
/// same bytes only when they are equal.  In particular the pairs
/// ("a", "bc") and ("ab", "c") give different inputs for any request.
pub proof fn lemma_fingerprint_input_injective(
    m1: Seq<char>,
    p1: Seq<char>,
    s1: Seq<char>,
    m2: Seq<char>,
    p2: Seq<char>,
    s2: Seq<char>,
)
    requires
        !m1.contains('\0'),
        !p1.contains('\0'),
        !m2.contains('\0'),
        !p2.contains('\0'),
        spec_fingerprint_input(m1, p1, s1) == spec_fingerprint_input(m2, p2, s2),
    ensures
        m1 == m2,
        p1 == p2,
        s1 == s2,
{
    let a1 = encode_utf8(m1);
    let b1 = encode_utf8(p1);
    let c1 = encode_utf8(s1);
    let a2 = encode_utf8(m2);
    let b2 = encode_utf8(p2);
    let c2 = encode_utf8(s2);
    let i = spec_fingerprint_input(m1, p1, s1);
    assert(i.len() == a1.len() + 1 + b1.len() + 1 + c1.len());
    assert(i.len() == a2.len() + 1 + b2.len() + 1 + c2.len());
    lemma_encode_utf8_no_zero(m1);
    lemma_encode_utf8_no_zero(p1);
    lemma_encode_utf8_no_zero(m2);
    lemma_encode_utf8_no_zero(p2);
    assert(a1.len() == a2.len()) by {
        if a1.len() < a2.len() {
            assert(i[a1.len() as int] == 0);
            assert(i[a1.len() as int] == a2[a1.len() as int]);
        }
        if a2.len() < a1.len() {
            assert(i[a2.len() as int] == 0);
            assert(i[a2.len() as int] == a1[a2.len() as int]);
        }
    }
    assert(a1 =~= a2) by {
        assert forall|k: int| 0 <= k < a1.len() implies a1[k] == a2[k] by {
            assert(i[k] == a1[k]);
            assert(i[k] == a2[k]);
        }
    }
    let la = a1.len() as int;
    assert(b1.len() == b2.len()) by {
        if b1.len() < b2.len() {
            assert(i[la + 1 + b1.len()] == 0);
            assert(i[la + 1 + b1.len()] == b2[b1.len() as int]);
        }
        if b2.len() < b1.len() {
            assert(i[la + 1 + b2.len()] == 0);
            assert(i[la + 1 + b2.len()] == b1[b2.len() as int]);
        }
    }
    assert(b1 =~= b2) by {
        assert forall|k: int| 0 <= k < b1.len() implies b1[k] == b2[k] by {
            assert(i[la + 1 + k] == b1[k]);
            assert(i[la + 1 + k] == b2[k]);
        }
    }
    let lb = b1.len() as int;
    assert(c1 =~= c2) by {
        assert(c1.len() == c2.len());
        assert forall|k: int| 0 <= k < c1.len() implies c1[k] == c2[k] by {
            assert(i[la + 1 + lb + 1 + k] == c1[k]);
            assert(i[la + 1 + lb + 1 + k] == c2[k]);
        }
    }
    vstd::utf8::encode_utf8_decode_utf8(m1);
    vstd::utf8::encode_utf8_decode_utf8(m2);
    vstd::utf8::encode_utf8_decode_utf8(p1);
    vstd::utf8::encode_utf8_decode_utf8(p2);
    vstd::utf8::encode_utf8_decode_utf8(s1);
    vstd::utf8::encode_utf8_decode_utf8(s2);
}

/// Decodes a lowercase or uppercase hex text back to bytes, two
/// characters per byte.
pub open spec fn spec_hex_decode(s: Seq<char>) -> Seq<u8>
    decreases s.len(),
{
    if s.len() < 2 {
        Seq::empty()
    } else {
        seq![
            (spec_hex_val(s[0]).unwrap() * 16 + spec_hex_val(s[1]).unwrap()) as u8,
        ] + spec_hex_decode(s.skip(2))
    }
}

/// Hex encoding loses nothing: decoding the wide key gives back the
/// digest bytes.
pub proof fn lemma_hex_roundtrip(d: Seq<u8>)
    ensures
        spec_hex_decode(spec_hex(d)) == d,
    decreases d.len(),
{
    if d.len() == 0 {
        assert(spec_hex_decode(spec_hex(d)) =~= d);
    } else {
        let b = d[0];
        let h = spec_hex(d);
        assert(h == spec_hex_byte(b) + spec_hex(d.drop_first()));
        assert(h[0] == spec_hex_digit((b / 16) as nat));
        assert(h[1] == spec_hex_digit((b % 16) as nat));
        lemma_hex_val_of_digit((b / 16) as nat);
        lemma_hex_val_of_digit((b % 16) as nat);
        assert(spec_hex_val(h[0]).unwrap() * 16 + spec_hex_val(h[1]).unwrap() == b);
        assert(h.skip(2) =~= spec_hex(d.drop_first()));
        lemma_hex_roundtrip(d.drop_first());
        assert(spec_hex_decode(h) =~= d);
    }
}

/// The narrow form is always the little-endian 64-bit reading of the
/// first 8 bytes behind the wide form: decoding the wide key and
/// re-deriving the narrow key gives the same value that the digest
/// gives directly.
pub proof fn lemma_narrow_wide_consistency(d: Seq<u8>)
    requires
        d.len() == 32,
    ensures
        spec_short_key(d) == spec_u64_from_le_bytes(spec_hex_decode(spec_long_key(d)).take(8)),
{
    lemma_hex_roundtrip(d);
}

/// Changing only the streaming flag changes the bytes fed to the
/// hash: the canonical encodings differ, and with model and provider
/// names free of interior zero characters the framed inputs differ.
pub proof fn lemma_stream_flag_changes_fingerprint_input(
    model: Seq<char>,
    provider: Seq<char>,
    a: RequestView,
    b: RequestView,
)
    requires
        !model.contains('\0'),
        !provider.contains('\0'),
        a.stream != b.stream,
        a.messages == b.messages,
        a.system == b.system,
        a.tool_config == b.tool_config,
        a.temperature == b.temperature,
        a.top_p == b.top_p,
        a.presence_penalty == b.presence_penalty,
        a.frequency_penalty == b.frequency_penalty,
        a.max_tokens == b.max_tokens,
        a.seed == b.seed,
        a.json_mode == b.json_mode,
        a.function_type == b.function_type,
        a.output_schema == b.output_schema,
    ensures
        spec_fingerprint_input(model, provider, spec_serialize_request(a))
            != spec_fingerprint_input(model, provider, spec_serialize_request(b)),
{
    crate::request::lemma_stream_flag_sensitivity(a, b);
    if spec_fingerprint_input(model, provider, spec_serialize_request(a))
        == spec_fingerprint_input(model, provider, spec_serialize_request(b)) {
        lemma_fingerprint_input_injective(
            model,
            provider,
            spec_serialize_request(a),
            model,
            provider,
            spec_serialize_request(b),
        );
    }
}

} // verus!
