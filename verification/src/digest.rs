//! The content hash of a script: SHA-256, written as lower-case hex.

use vstd::prelude::*;
use vstd::string::*;
use vstd::utf8::encode_utf8;
use sha2::{Digest, Sha256};

verus! {

/// The SHA-256 digest of `data`.
pub uninterp spec fn sha256(data: Seq<u8>) -> Seq<u8>;

/// The hex digit for a value below sixteen.
pub open spec fn hex_digit(n: int) -> char {
    "0123456789abcdef"@[n]
}

/// `data` in lower-case hex, two digits for each byte, the high half first.
pub open spec fn hex_lower(data: Seq<u8>) -> Seq<char> {
    Seq::new(
        2 * data.len(),
        |i: int|
            if i % 2 == 0 {
                hex_digit(data[i / 2] as int / 16)
            } else {
                hex_digit(data[i / 2] as int % 16)
            },
    )
}

/// The content hash of the text `text`: the SHA-256 digest of its UTF-8
/// bytes, in lower-case hex.
pub open spec fn hash_of(text: Seq<char>) -> Seq<char> {
    hex_lower(sha256(encode_utf8(text)))
}

/// Calls `Sha256::digest` of the crate `sha2`. Trusted: the bytes returned
/// are the SHA-256 digest of `data`, which depends on `data` alone.
#[verifier::external_body]
fn sha256_digest(data: &[u8]) -> (digest: Vec<u8>)
    ensures
        digest@ == sha256(data@),
{
    Sha256::digest(data).to_vec()
}

/// Calls `hex::encode`. Trusted: the string returned holds two lower-case hex
/// digits for each byte of `data`, in order, the high half of a byte first.
#[verifier::external_body]
fn hex_encode(data: &[u8]) -> (text: String)
    ensures
        text@ == hex_lower(data@),
{
    hex::encode(data)
}

/// A digest written as lower-case hex.
pub fn digest_text(digest: &[u8]) -> (text: String)
    ensures
        text@ == hex_lower(digest@),
{
    hex_encode(digest)
}

/// The content hash of `text`.
pub fn content_hash(text: &str) -> (hash: String)
    ensures
        hash@ == hash_of(text@),
{
    let digest = sha256_digest(text.as_bytes());
    digest_text(digest.as_slice())
}

} // verus!
