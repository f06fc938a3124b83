//! The cache key of a query: the SHA-256 digest of its canonical text, in
//! lowercase hexadecimal.

use crate::canonical::canonical;
use crate::hex::{
    hex_lower, is_lower_hex_digit, lemma_hex_lower_digits, lemma_hex_lower_injective, to_hex_lower,
};
use sha2::Digest;
use vstd::prelude::*;
use vstd::string::*;
use vstd::utf8::*;

verus! {

/// Number of bytes in a SHA-256 digest.
pub const DIGEST_LEN: usize = 32;

/// Number of characters in a fingerprint.
pub const FINGERPRINT_LEN: usize = 64;

/// The SHA-256 digest of `data`.
pub uninterp spec fn sha256(data: Seq<u8>) -> Seq<u8>;

/// The fingerprint of a text: the digest of its UTF-8 bytes, written in
/// lowercase hexadecimal.
pub open spec fn fingerprint_of(text: Seq<char>) -> Seq<char> {
    hex_lower(sha256(encode_utf8(text)))
}

/// Computes a SHA-256 digest with `sha2::Sha256::digest`. The digest depends
/// on the bytes alone and is 32 bytes long.
#[verifier::external_body]
fn sha256_bytes(data: &[u8]) -> (digest: Vec<u8>)
    ensures
        digest@ == sha256(data@),
        digest@.len() == DIGEST_LEN,
{
    sha2::Sha256::digest(data).to_vec()
}

/// Computes the fingerprint of a canonical query.
pub fn fingerprint(text: &str) -> (key: String)
    ensures
        key@ == fingerprint_of(text@),
        key@.len() == FINGERPRINT_LEN,
        forall|i: int| 0 <= i < key@.len() ==> is_lower_hex_digit(#[trigger] key@[i]),
{
    let digest = sha256_bytes(text.as_bytes());
    proof {
        lemma_hex_lower_digits(digest@);
    }
    to_hex_lower(digest.as_slice())
}

/// The fingerprint is a function of the text: computed twice of one text,
/// it is the same both times, and texts with one canonical form have one key.
pub proof fn lemma_fingerprint_deterministic(a: Seq<char>, b: Seq<char>)
    ensures
        a == b ==> fingerprint_of(a) == fingerprint_of(b),
        canonical(a) == canonical(b) ==> fingerprint_of(canonical(a)) == fingerprint_of(
            canonical(b),
        ),
{
}

/// Two texts have the same fingerprint exactly when their UTF-8 bytes have
/// the same digest: the hexadecimal form loses nothing.
pub proof fn lemma_fingerprint_equal_iff_digest_equal(a: Seq<char>, b: Seq<char>)
    ensures
        fingerprint_of(a) == fingerprint_of(b) <==> sha256(encode_utf8(a)) == sha256(
            encode_utf8(b),
        ),
{
    if fingerprint_of(a) == fingerprint_of(b) {
        lemma_hex_lower_injective(sha256(encode_utf8(a)), sha256(encode_utf8(b)));
    }
}

} // verus!
