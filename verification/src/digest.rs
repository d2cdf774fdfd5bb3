//! Cryptographic digests of byte buffers, computed by the RustCrypto `md-5`,
//! `sha1` and `sha2` crates.

use vstd::prelude::*;
use crate::text::{hex_lower_bytes, hex_string_lower};

verus! {

/// The MD5 digest of a byte sequence.
pub uninterp spec fn md5_digest(data: Seq<u8>) -> Seq<u8>;

/// The SHA-1 digest of a byte sequence.
pub uninterp spec fn sha1_digest(data: Seq<u8>) -> Seq<u8>;

/// The SHA-256 digest of a byte sequence.
pub uninterp spec fn sha256_digest(data: Seq<u8>) -> Seq<u8>;

/// `md5::Md5::digest`: the 16-byte MD5 digest of `data`.
/// Trusted: the result is the digest named `md5_digest`, and is 16 bytes long.
#[verifier::external_body]
fn md5_bytes(data: &[u8]) -> (d: Vec<u8>)
    ensures
        d@ == md5_digest(data@),
        d@.len() == 16,
{
    <md5::Md5 as md5::Digest>::digest(data).to_vec()
}

/// `sha1::Sha1::digest`: the 20-byte SHA-1 digest of `data`.
/// Trusted: the result is the digest named `sha1_digest`, and is 20 bytes long.
#[verifier::external_body]
fn sha1_bytes(data: &[u8]) -> (d: Vec<u8>)
    ensures
        d@ == sha1_digest(data@),
        d@.len() == 20,
{
    <sha1::Sha1 as sha1::Digest>::digest(data).to_vec()
}

/// `sha2::Sha256::digest`: the 32-byte SHA-256 digest of `data`.
/// Trusted: the result is the digest named `sha256_digest`, and is 32 bytes long.
#[verifier::external_body]
fn sha256_bytes(data: &[u8]) -> (d: Vec<u8>)
    ensures
        d@ == sha256_digest(data@),
        d@.len() == 32,
{
    <sha2::Sha256 as sha2::Digest>::digest(data).to_vec()
}

/// Lowercase hexadecimal MD5 of `data`.
pub fn md5_hex(data: &[u8]) -> (s: String)
    ensures
        s@ == hex_lower_bytes(md5_digest(data@)),
        s@.len() == 32,
{
    let d = md5_bytes(data);
    let s = hex_string_lower(d.as_slice());
    proof { lemma_hex_lower_len(d@); }
    s
}

/// Lowercase hexadecimal SHA-1 of `data`.
pub fn sha1_hex(data: &[u8]) -> (s: String)
    ensures
        s@ == hex_lower_bytes(sha1_digest(data@)),
        s@.len() == 40,
{
    let d = sha1_bytes(data);
    let s = hex_string_lower(d.as_slice());
    proof { lemma_hex_lower_len(d@); }
    s
}

/// Lowercase hexadecimal SHA-256 of `data`.
pub fn sha256_hex(data: &[u8]) -> (s: String)
    ensures
        s@ == hex_lower_bytes(sha256_digest(data@)),
        s@.len() == 64,
{
    let d = sha256_bytes(data);
    let s = hex_string_lower(d.as_slice());
    proof { lemma_hex_lower_len(d@); }
    s
}

/// The hexadecimal rendering has two characters per byte.
pub proof fn lemma_hex_lower_len(b: Seq<u8>)
    ensures
        hex_lower_bytes(b).len() == 2 * b.len(),
    decreases b.len(),
{
    if b.len() > 0 {
        lemma_hex_lower_len(b.drop_last());
    }
}

} // verus!
