//! Identifier derivation: a swap identifier is the lowercase hex rendering
//! of the SHA-256 digest of the swap's parameters, so identical parameters
//! always derive the identical identifier.

use crate::crypto::{hex_encode, sha256, sha256_of};
use crate::hexstr::hex_chars_of;
use vstd::prelude::*;
use vstd::string::StrSliceExecFns;
use vstd::utf8::encode_utf8;

verus! {

/// The big-endian bytes of a 64-bit integer.
pub open spec fn u64_be_bytes(x: u64) -> Seq<u8> {
    seq![
        (x >> 56) as u8,
        (x >> 48) as u8,
        (x >> 40) as u8,
        (x >> 32) as u8,
        (x >> 24) as u8,
        (x >> 16) as u8,
        (x >> 8) as u8,
        x as u8,
    ]
}

/// The bytes hashed to derive a swap identifier: the UTF-8 bytes of the
/// initiator, participant and hashlock, then the timelock and block height
/// as big-endian 8-byte integers.
pub open spec fn id_preimage(
    initiator: Seq<char>,
    participant: Seq<char>,
    hashlock: Seq<char>,
    timelock: u64,
    block_height: u64,
) -> Seq<u8> {
    encode_utf8(initiator) + encode_utf8(participant) + encode_utf8(hashlock) + u64_be_bytes(
        timelock,
    ) + u64_be_bytes(block_height)
}

/// The derived swap identifier, as characters.
pub open spec fn swap_id_chars(
    initiator: Seq<char>,
    participant: Seq<char>,
    hashlock: Seq<char>,
    timelock: u64,
    block_height: u64,
) -> Seq<char> {
    hex_chars_of(sha256_of(id_preimage(initiator, participant, hashlock, timelock, block_height)))
}

/// Appends the big-endian bytes of `x`.
fn push_be_bytes(data: &mut Vec<u8>, x: u64)
    ensures
        final(data)@ == old(data)@ + u64_be_bytes(x),
{
    data.push((x >> 56) as u8);
    data.push((x >> 48) as u8);
    data.push((x >> 40) as u8);
    data.push((x >> 32) as u8);
    data.push((x >> 24) as u8);
    data.push((x >> 16) as u8);
    data.push((x >> 8) as u8);
    data.push(x as u8);
    proof {
        assert(data@ =~= old(data)@ + u64_be_bytes(x));
    }
}

/// Derives the deterministic identifier of a swap from its parameters.
pub fn generate_swap_id(
    initiator: &str,
    participant: &str,
    hashlock: &str,
    timelock: u64,
    block_height: u64,
) -> (r: String)
    ensures
        r@ == swap_id_chars(initiator@, participant@, hashlock@, timelock, block_height),
{
    let mut data = initiator.as_bytes_vec();
    let mut rest = participant.as_bytes_vec();
    data.append(&mut rest);
    let mut rest = hashlock.as_bytes_vec();
    data.append(&mut rest);
    push_be_bytes(&mut data, timelock);
    push_be_bytes(&mut data, block_height);
    proof {
        assert(data@ =~= id_preimage(initiator@, participant@, hashlock@, timelock, block_height));
    }
    let digest = sha256(data.as_slice());
    hex_encode(digest.as_slice())
}

/// Identifier derivation is deterministic: the identifier is a function of
/// the five parameters alone, so identical inputs always derive the same
/// identifier.
pub proof fn lemma_swap_id_deterministic(
    i1: Seq<char>,
    p1: Seq<char>,
    h1: Seq<char>,
    t1: u64,
    b1: u64,
    i2: Seq<char>,
    p2: Seq<char>,
    h2: Seq<char>,
    t2: u64,
    b2: u64,
)
    requires
        i1 == i2,
        p1 == p2,
        h1 == h2,
        t1 == t2,
        b1 == b2,
    ensures
        swap_id_chars(i1, p1, h1, t1, b1) == swap_id_chars(i2, p2, h2, t2, b2),
{
}

} // verus!
