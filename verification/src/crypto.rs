//! The hash commitment verifier, and the trusted bindings to the SHA-256
//! and hex-encoding crates that it and identifier derivation rely on.

use crate::hexstr::{hex_chars_of, hex_eq_ci};
use sha2::Digest;
use vstd::prelude::*;
use vstd::utf8::encode_utf8;

verus! {

/// The SHA-256 digest of a byte sequence.  The digest of an input depends
/// on that input alone; nothing more is assumed of its value.
pub uninterp spec fn sha256_of(input: Seq<u8>) -> Seq<u8>;

/// Relies on sha2::Sha256::digest: the digest is 32 bytes and is a
/// function of the input bytes alone.
#[verifier::external_body]
pub(crate) fn sha256(input: &[u8]) -> (r: Vec<u8>)
    ensures
        r@ == sha256_of(input@),
        r@.len() == 32,
{
    sha2::Sha256::digest(input).to_vec()
}

/// Relies on hex::encode: two lowercase hex digits per input byte, high
/// nibble first.
#[verifier::external_body]
pub(crate) fn hex_encode(bytes: &[u8]) -> (r: String)
    ensures
        r@ == hex_chars_of(bytes@),
{
    hex::encode(bytes)
}

/// Whether the SHA-256 digest of the UTF-8 bytes of `secret` equals
/// `hashlock`, compared digit by digit without regard to case.
pub open spec fn secret_matches(hashlock: Seq<char>, secret: Seq<char>) -> bool {
    hex_eq_ci(hashlock, hex_chars_of(sha256_of(encode_utf8(secret))))
}

/// The hash commitment verifier: hashes the revealed secret and compares
/// it against the stored hashlock, case-insensitively.
pub fn verify_secret(hashlock: &str, secret: &str) -> (r: bool)
    ensures
        r == secret_matches(hashlock@, secret@),
{
    let digest = sha256(secret.as_bytes());
    let digest_hex = hex_encode(digest.as_slice());
    crate::hexstr::hex_str_eq_ci(hashlock, digest_hex.as_str())
}

} // verus!
