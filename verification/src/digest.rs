//! Token digests and random link tokens: SHA-256 through sha2, lowercase
//! hex through hex, URL-safe base64 through base64, randomness through rand.

use base64::engine::general_purpose::URL_SAFE_NO_PAD;
use base64::Engine;
use rand::RngCore;
use sha2::Digest;
use vstd::prelude::*;

use crate::text::{chars_of, push_str, push_all, string_of};

verus! {

/// The SHA-256 digest of `data`, as sha2's `Sha256::digest` computes it.
pub uninterp spec fn sha256_digest(data: Seq<u8>) -> Seq<u8>;

/// The lowercase hexadecimal digit for `v` in `0..16`.
pub open spec fn hex_digit(v: int) -> char {
    if v < 10 {
        (48 + v) as char
    } else {
        (87 + v) as char
    }
}

/// Lowercase hexadecimal text of `s`: two digits per byte, high nibble first.
pub open spec fn hex_lower(s: Seq<u8>) -> Seq<char>
    decreases s.len(),
{
    if s.len() == 0 {
        seq![]
    } else {
        seq![hex_digit((s[0] as int) / 16), hex_digit((s[0] as int) % 16)] + hex_lower(s.skip(1))
    }
}

/// The character for the 6-bit value `v` in the URL-safe base64 alphabet.
pub open spec fn b64_char(v: int) -> char {
    if v < 26 {
        (65 + v) as char
    } else if v < 52 {
        (71 + v) as char
    } else if v < 62 {
        (v - 4) as char
    } else if v == 62 {
        '-'
    } else {
        '_'
    }
}

/// URL-safe base64 of `s` without padding: each group of three bytes
/// becomes four characters, a last group of one or two bytes two or three.
pub open spec fn b64url(s: Seq<u8>) -> Seq<char>
    decreases s.len(),
{
    if s.len() == 0 {
        seq![]
    } else if s.len() == 1 {
        seq![b64_char((s[0] as int) / 4), b64_char(((s[0] as int) % 4) * 16)]
    } else if s.len() == 2 {
        seq![
            b64_char((s[0] as int) / 4),
            b64_char(((s[0] as int) % 4) * 16 + (s[1] as int) / 16),
            b64_char(((s[1] as int) % 16) * 4),
        ]
    } else {
        seq![
            b64_char((s[0] as int) / 4),
            b64_char(((s[0] as int) % 4) * 16 + (s[1] as int) / 16),
            b64_char(((s[1] as int) % 16) * 4 + (s[2] as int) / 64),
            b64_char((s[2] as int) % 64),
        ] + b64url(s.skip(3))
    }
}

/// Whether `c` belongs to the URL-safe base64 alphabet.
pub open spec fn is_b64url_char(c: char) -> bool {
    ('A' <= c <= 'Z') || ('a' <= c <= 'z') || ('0' <= c <= '9') || c == '-' || c == '_'
}

/// The stored form of a link token: `v1:` and the hex SHA-256 of its UTF-8 bytes.
pub open spec fn digest_text(token: Seq<char>) -> Seq<char> {
    seq!['v', '1', ':'] + hex_lower(sha256_digest(vstd::utf8::encode_utf8(token)))
}

/// Hex text has two characters per byte.
pub proof fn lemma_hex_len(s: Seq<u8>)
    ensures
        hex_lower(s).len() == 2 * s.len(),
    decreases s.len(),
{
    if s.len() > 0 {
        lemma_hex_len(s.skip(1));
    }
}

/// Base64 text has four characters per three bytes, and every character
/// comes from the URL-safe alphabet.
pub proof fn lemma_b64_shape(s: Seq<u8>)
    ensures
        3 * b64url(s).len() == 4 * s.len() + (if s.len() % 3 == 1 { 2int } else if s.len() % 3
            == 2 { 1int } else { 0int }),
        forall|i: int| 0 <= i < b64url(s).len() ==> is_b64url_char(#[trigger] b64url(s)[i]),
    decreases s.len(),
{
    if s.len() >= 3 {
        lemma_b64_shape(s.skip(3));
        let head = seq![
            b64_char((s[0] as int) / 4),
            b64_char(((s[0] as int) % 4) * 16 + (s[1] as int) / 16),
            b64_char(((s[1] as int) % 16) * 4 + (s[2] as int) / 64),
            b64_char((s[2] as int) % 64),
        ];
        assert(b64url(s) == head + b64url(s.skip(3)));
        assert forall|i: int| 0 <= i < b64url(s).len() implies is_b64url_char(
            #[trigger] b64url(s)[i],
        ) by {
            if i >= 4 {
                assert(b64url(s)[i] == b64url(s.skip(3))[i - 4]);
            }
        }
    }
}

/// The SHA-256 digest of `data` (sha2's `Sha256::digest`); its 32 bytes are
/// named, not stated.
#[verifier::external_body]
pub(crate) fn sha256(data: &[u8]) -> (r: Vec<u8>)
    ensures
        r@ == sha256_digest(data@),
        r@.len() == 32,
{
    sha2::Sha256::digest(data).to_vec()
}

/// Lowercase hex text of `data`, as `hex::encode` writes it: two digits per
/// byte, high nibble first.
#[verifier::external_body]
pub(crate) fn hex_encode(data: &[u8]) -> (r: String)
    ensures
        r@ == hex_lower(data@),
{
    hex::encode(data)
}

/// URL-safe base64 of `data` without padding, as base64's `URL_SAFE_NO_PAD`
/// engine encodes it.
#[verifier::external_body]
pub(crate) fn base64_url(data: &[u8]) -> (r: String)
    ensures
        r@ == b64url(data@),
{
    URL_SAFE_NO_PAD.encode(data)
}

/// Thirty-two bytes from rand's thread-local generator; nothing is stated of
/// their values.
#[verifier::external_body]
pub(crate) fn random_bytes() -> (r: Vec<u8>)
    ensures
        r@.len() == 32,
{
    let mut bytes = [0u8; 32];
    rand::rng().fill_bytes(&mut bytes);
    bytes.to_vec()
}

/// The checksum recorded for stored content (an upload, an export): the
/// lowercase hex SHA-256 of its bytes.
pub fn content_checksum(bytes: &[u8]) -> (r: String)
    ensures
        r@ == hex_lower(sha256_digest(bytes@)),
{
    let digest = sha256(bytes);
    hex_encode(digest.as_slice())
}

/// The stored digest of a link or invitation token: `v1:` and the lowercase
/// hex SHA-256 of the token's UTF-8 bytes.
pub fn token_digest(token: &str) -> (r: String)
    ensures
        r@ == digest_text(token@),
        r@.len() == 67,
{
    let digest = sha256(token.as_bytes());
    let hex = hex_encode(digest.as_slice());
    let mut out: Vec<char> = Vec::new();
    push_str(&mut out, "v1:");
    let hex_chars = chars_of(hex.as_str());
    push_all(&mut out, &hex_chars);
    proof {
        reveal_strlit("v1:");
        lemma_hex_len(digest@);
        assert(out@ =~= digest_text(token@));
    }
    string_of(&out)
}

/// A fresh link token: URL-safe base64 of 32 random bytes, 43 characters
/// from the URL-safe alphabet.
pub fn random_token() -> (r: String)
    ensures
        exists|b: Seq<u8>| b.len() == 32 && r@ == #[trigger] b64url(b),
        r@.len() == 43,
        forall|i: int| 0 <= i < r@.len() ==> is_b64url_char(#[trigger] r@[i]),
{
    let bytes = random_bytes();
    let r = base64_url(bytes.as_slice());
    proof {
        lemma_b64_shape(bytes@);
    }
    r
}

} // verus!
