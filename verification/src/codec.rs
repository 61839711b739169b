//! Encodings and digests that the login needs, and the calls into `base64`,
//! `rand`, `sha2` and `urlencoding`.
use crate::b64;
use ::base64::Engine;
use rand::RngCore;
use sha2::Digest;
use vstd::prelude::*;
use vstd::utf8::*;

verus! {

// ---------------------------------------------------------------------------
// Base64, SHA-256, random bytes
// ---------------------------------------------------------------------------
/// `Engine::encode` of `base64` with the engine `URL_SAFE_NO_PAD`. The contract
/// claims that the result is the URL-safe base64 of the bytes, without padding.
#[verifier::external_body]
pub(crate) fn base64url_encode(bytes: &[u8]) -> (r: String)
    ensures
        r@ == b64::base64url(bytes@),
{
    ::base64::engine::general_purpose::URL_SAFE_NO_PAD.encode(bytes)
}

/// `Engine::decode` of `base64` with the engine `URL_SAFE_NO_PAD`, which takes
/// neither padding nor other characters nor stray bits behind the last byte.
/// The contract claims that it returns the bytes whose encoding the text is,
/// and fails if there are none.
#[verifier::external_body]
pub(crate) fn base64url_decode(s: &str) -> (r: Option<Vec<u8>>)
    ensures
        match r {
            Some(b) => b64::base64url(b@) == s@,
            None => forall|b: Seq<u8>| #[trigger] b64::base64url(b) != s@,
        },
{
    ::base64::engine::general_purpose::URL_SAFE_NO_PAD.decode(s).ok()
}

/// The SHA-256 digest of bytes, as `Sha256::digest` of `sha2` computes it.
pub uninterp spec fn sha256(bytes: Seq<u8>) -> Seq<u8>;

/// `Sha256::digest` of `sha2`. The contract names the digest and claims its
/// length of 32 bytes.
#[verifier::external_body]
pub(crate) fn sha256_digest(bytes: &[u8]) -> (r: Vec<u8>)
    ensures
        r@ == sha256(bytes@),
        r@.len() == 32,
{
    sha2::Sha256::digest(bytes).to_vec()
}

/// `thread_rng` of `rand` filling `n` bytes. The contract claims their number
/// only: which bytes they are is left to chance.
#[verifier::external_body]
pub(crate) fn random_bytes(n: usize) -> (r: Vec<u8>)
    ensures
        r@.len() == n,
{
    let mut buf = vec![0u8; n];
    rand::thread_rng().fill_bytes(&mut buf);
    buf
}

/// The URL-safe base64 of `n` random bytes.
pub fn random_b64url(n: usize) -> (r: String)
    ensures
        exists|b: Seq<u8>| b.len() == n && #[trigger] b64::base64url(b) == r@,
{
    let bytes = random_bytes(n);
    base64url_encode(bytes.as_slice())
}

/// The bytes that a text is the URL-safe base64 of, without padding.
pub fn decode_base64url(s: &str) -> (r: Option<Vec<u8>>)
    ensures
        match r {
            Some(b) => b64::base64url_decoded(s@) == Some(b@),
            None => b64::base64url_decoded(s@) is None,
        },
{
    let r = base64url_decode(s);
    proof {
        if r is Some {
            b64::base64url_round_trip(r->0@);
        }
    }
    r
}

// ---------------------------------------------------------------------------
// Percent-encoding
// ---------------------------------------------------------------------------
/// Whether byte `b` stands for itself: letters, digits and `-._~`.
pub open spec fn unreserved(b: u8) -> bool {
    ||| 48 <= b <= 57
    ||| 65 <= b <= 90
    ||| 97 <= b <= 122
    ||| b == 45
    ||| b == 46
    ||| b == 95
    ||| b == 126
}

/// The upper-case hexadecimal digit of `v`.
pub open spec fn hex_digit(v: int) -> char {
    if v < 10 {
        (48 + v) as char
    } else {
        (55 + v) as char
    }
}

/// The percent-encoding of one byte.
pub open spec fn percent_byte(b: u8) -> Seq<char> {
    if unreserved(b) {
        seq![b as char]
    } else {
        seq!['%', hex_digit(b as int / 16), hex_digit(b as int % 16)]
    }
}

/// The percent-encoding of bytes.
pub open spec fn percent_encoded(b: Seq<u8>) -> Seq<char>
    decreases b.len(),
{
    if b.len() == 0 {
        Seq::empty()
    } else {
        percent_byte(b[0]) + percent_encoded(b.drop_first())
    }
}

/// The value of a hexadecimal digit of either case.
pub open spec fn hex_value(b: u8) -> Option<int> {
    if 48 <= b <= 57 {
        Some(b - 48)
    } else if 65 <= b <= 70 {
        Some(b - 55)
    } else if 97 <= b <= 102 {
        Some(b - 87)
    } else {
        None
    }
}

/// Bytes with each `%` that two hexadecimal digits follow replaced by the byte
/// that they stand for. Any other byte is kept.
pub open spec fn percent_decoded(b: Seq<u8>) -> Seq<u8>
    decreases b.len(),
{
    if b.len() == 0 {
        b
    } else if b[0] == 37 && b.len() >= 3 && hex_value(b[1]) is Some && hex_value(b[2]) is Some {
        seq![(hex_value(b[1])->0 * 16 + hex_value(b[2])->0) as u8] + percent_decoded(b.skip(3))
    } else {
        seq![b[0]] + percent_decoded(b.drop_first())
    }
}

/// The text as it stands in a URL.
pub open spec fn url_encoded(s: Seq<char>) -> Seq<char> {
    percent_encoded(encode_utf8(s))
}

/// The text that stands for `s` in a URL; `None` if its bytes are not UTF-8.
pub open spec fn url_decoded(s: Seq<char>) -> Option<Seq<char>> {
    let b = percent_decoded(encode_utf8(s));
    if valid_utf8(b) {
        Some(decode_utf8(b))
    } else {
        None
    }
}

/// `urlencoding::encode`. The contract claims that every byte of the UTF-8 is
/// percent-encoded except letters, digits and `-._~`.
#[verifier::external_body]
pub(crate) fn url_encode(s: &str) -> (r: String)
    ensures
        r@ == url_encoded(s@),
{
    urlencoding::encode(s).into_owned()
}

/// `urlencoding::decode`. The contract claims that each `%` with two
/// hexadecimal digits becomes the byte they stand for, that all else is kept,
/// and that it fails exactly if the bytes are not UTF-8.
#[verifier::external_body]
pub(crate) fn url_decode(s: &str) -> (r: Option<String>)
    ensures
        match r {
            Some(t) => url_decoded(s@) == Some(t@),
            None => url_decoded(s@) is None,
        },
{
    urlencoding::decode(s).ok().map(|t| t.into_owned())
}

// ---------------------------------------------------------------------------
// Laws
// ---------------------------------------------------------------------------
proof fn lemma_hex(b: u8)
    ensures
        hex_value(hex_digit(b as int / 16) as u8) == Some(b as int / 16),
        hex_value(hex_digit(b as int % 16) as u8) == Some(b as int % 16),
        (hex_digit(b as int / 16) as u32) < 128,
        (hex_digit(b as int % 16) as u32) < 128,
{
}

/// The characters of `t` as bytes.
spec fn as_bytes(t: Seq<char>) -> Seq<u8> {
    Seq::new(t.len(), |i: int| t[i] as u8)
}

proof fn lemma_percent_ascii(b: Seq<u8>)
    ensures
        is_ascii_chars(percent_encoded(b)),
        percent_decoded(as_bytes(percent_encoded(b))) == b,
    decreases b.len(),
{
    let t = percent_encoded(b);
    if b.len() == 0 {
        assert(percent_decoded(as_bytes(t)) =~= b);
    } else {
        let head = percent_byte(b[0]);
        let rest = percent_encoded(b.drop_first());
        lemma_percent_ascii(b.drop_first());
        lemma_hex(b[0]);
        assert forall|i: int| 0 <= i < t.len() implies (#[trigger] t[i] as nat) < 128 by {
            if i >= head.len() {
                assert(t[i] == rest[i - head.len()]);
            }
        }
        let u = as_bytes(t);
        if unreserved(b[0]) {
            assert(u.drop_first() =~= as_bytes(rest));
            assert(u[0] == b[0]);
        } else {
            assert(u.skip(3) =~= as_bytes(rest));
            assert(u[0] == 37);
        }
        assert(percent_decoded(u) =~= b);
    }
}

/// A text that was put into a URL is read back from it as it was.
pub proof fn url_round_trip(s: Seq<char>)
    ensures
        url_decoded(url_encoded(s)) == Some(s),
{
    let b = encode_utf8(s);
    let t = percent_encoded(b);
    lemma_percent_ascii(b);
    is_ascii_chars_encode_utf8(t);
    assert(encode_utf8(t) =~= as_bytes(t));
    encode_utf8_valid_utf8(s);
    encode_utf8_decode_utf8(s);
}

/// Whether a character can stand in a percent-encoded text.
pub open spec fn url_safe(c: char) -> bool {
    let u = c as u32;
    ||| 48 <= u <= 57
    ||| 65 <= u <= 90
    ||| 97 <= u <= 122
    ||| c == '-'
    ||| c == '.'
    ||| c == '_'
    ||| c == '~'
    ||| c == '%'
}

/// A text that was put into a URL holds only letters, digits and `-._~%`.
pub proof fn encoded_text_is_url_safe(s: Seq<char>, i: int)
    requires
        0 <= i < url_encoded(s).len(),
    ensures
        url_safe(url_encoded(s)[i]),
{
    lemma_encoded_bytes_are_safe(encode_utf8(s), i);
}

proof fn lemma_encoded_bytes_are_safe(b: Seq<u8>, i: int)
    requires
        0 <= i < percent_encoded(b).len(),
    ensures
        url_safe(percent_encoded(b)[i]),
    decreases b.len(),
{
    let head = percent_byte(b[0]);
    let rest = percent_encoded(b.drop_first());
    if i < head.len() {
        assert(percent_encoded(b)[i] == head[i]);
    } else {
        assert(percent_encoded(b)[i] == rest[i - head.len()]);
        lemma_encoded_bytes_are_safe(b.drop_first(), i - head.len());
    }
}

} // verus!
