//! Digests and text codecs provided by outside crates.
use base64::Engine;
use sha1::Digest as _;
use vstd::prelude::*;
use vstd::string::*;
use vstd::utf8::is_ascii_chars;

verus! {

/// The SHA-1 digest of a byte string, as the `sha1` crate computes it.
pub uninterp spec fn sha1_of(b: Seq<u8>) -> Seq<u8>;

/// The SHA-256 digest of a byte string, as the `sha2` crate computes it.
pub uninterp spec fn sha256_of(b: Seq<u8>) -> Seq<u8>;

/// The SHA-256 digest of a byte string, as `ring::digest` computes it.
pub uninterp spec fn ring_sha256_of(b: Seq<u8>) -> Seq<u8>;

/// The bytes that standard, padded base64 text decodes to, if it is valid.
pub uninterp spec fn base64_decoded(b: Seq<u8>) -> Option<Seq<u8>>;

/// Lengths that `ring::digest::digest` hashes with SHA-256 without panicking.
pub open spec fn ring_sha256_accepts(len: nat) -> bool {
    len < 0x2000_0000_0000_0000
}

/// Relies on `sha1::Sha1::digest`: a 20-byte digest of the bytes alone.
#[verifier::external_body]
pub(crate) fn sha1_digest(b: &[u8]) -> (r: Vec<u8>)
    ensures
        r@ == sha1_of(b@),
        r@.len() == 20,
{
    sha1::Sha1::digest(b).to_vec()
}

/// Relies on `sha2::Sha256::digest`: a 32-byte digest of the bytes alone.
#[verifier::external_body]
pub(crate) fn sha256_digest(b: &[u8]) -> (r: Vec<u8>)
    ensures
        r@ == sha256_of(b@),
        r@.len() == 32,
{
    sha2::Sha256::digest(b).to_vec()
}

/// Relies on `ring::digest::digest` with `SHA256`: a 32-byte digest of the
/// bytes alone; it panics on inputs of 2^61 bytes or more.
#[verifier::external_body]
pub(crate) fn ring_sha256_digest(b: &[u8]) -> (r: Vec<u8>)
    requires
        ring_sha256_accepts(b@.len()),
    ensures
        r@ == ring_sha256_of(b@),
        r@.len() == 32,
{
    ring::digest::digest(&ring::digest::SHA256, b).as_ref().to_vec()
}

/// Relies on `base64::engine::general_purpose::STANDARD.decode`: the decoded
/// bytes, or an error where the text is not valid padded base64.
#[verifier::external_body]
pub(crate) fn base64_decode(b: &[u8]) -> (r: Option<Vec<u8>>)
    ensures
        match r {
            Some(v) => base64_decoded(b@) == Some(v@),
            None => base64_decoded(b@) is None,
        },
{
    base64::engine::general_purpose::STANDARD.decode(b).ok()
}

/// The value of an ASCII hexadecimal digit of either case.
pub open spec fn hex_value(c: u8) -> Option<u8> {
    if 0x30 <= c <= 0x39 {
        Some((c - 0x30) as u8)
    } else if 0x41 <= c <= 0x46 {
        Some((c - 0x41 + 10) as u8)
    } else if 0x61 <= c <= 0x66 {
        Some((c - 0x61 + 10) as u8)
    } else {
        None
    }
}

/// The bytes that hexadecimal text denotes: two digits of either case for each
/// byte, high digit first. Text of odd length or with another character
/// denotes none.
pub open spec fn hex_decoded(t: Seq<u8>) -> Option<Seq<u8>> {
    if t.len() % 2 == 0 && forall|i: int| 0 <= i < t.len() ==> (#[trigger] hex_value(t[i])) is Some {
        Some(
            Seq::new(
                (t.len() / 2) as nat,
                |i: int| (hex_value(t[2 * i])->Some_0 * 16 + hex_value(t[2 * i + 1])->Some_0) as u8,
            ),
        )
    } else {
        None
    }
}

/// Relies on `hex::decode`, whose source decodes pairs of digits of either
/// case and fails on odd length or any other character.
#[verifier::external_body]
pub(crate) fn hex_decode(t: &[u8]) -> (r: Option<Vec<u8>>)
    ensures
        match r {
            Some(v) => hex_decoded(t@) == Some(v@),
            None => hex_decoded(t@) is None,
        },
{
    hex::decode(t).ok()
}

/// The bytes that hexadecimal text denotes, read character by character; text
/// with a character outside ASCII denotes none.
pub open spec fn hex_text(s: Seq<char>) -> Option<Seq<u8>> {
    if is_ascii_chars(s) {
        hex_decoded(Seq::new(s.len(), |i: int| s[i] as u8))
    } else {
        None
    }
}

/// Decodes hexadecimal text.
pub fn decode_hex_str(s: &str) -> (r: Option<Vec<u8>>)
    ensures
        match r {
            Some(v) => hex_text(s@) == Some(v@),
            None => hex_text(s@) is None,
        },
{
    if !s.is_ascii() {
        return None;
    }
    proof {
        vstd::string::is_ascii_spec_bytes(s);
        assert(s.spec_bytes() =~= Seq::new(s@.len(), |i: int| s@[i] as u8));
    }
    hex_decode(s.as_bytes())
}

} // verus!
