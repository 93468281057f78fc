//! The SCALE encoding of the seed payload, and the 128-bit Blake2 hash.
use vstd::prelude::*;
use parity_scale_codec::Encode;

verus! {

/// The `n` least significant bytes of `x`, least significant first.
pub open spec fn le_bytes(x: nat, n: nat) -> Seq<u8>
    decreases n,
{
    if n == 0 {
        Seq::empty()
    } else {
        seq![(x % 256) as u8] + le_bytes(x / 256, (n - 1) as nat)
    }
}

/// The SCALE encoding of an optional `u32`: a tag byte, then the value.
pub open spec fn option_u32_bytes(x: Option<u32>) -> Seq<u8> {
    match x {
        None => seq![0u8],
        Some(v) => seq![1u8] + le_bytes(v as nat, 4),
    }
}

/// The SCALE encoding of the tuple `(seed, sender, extrinsic_index, block_number)`:
/// the encodings of its fields one after the other.
pub open spec fn payload_bytes(
    seed: Seq<u8>,
    sender: u64,
    extrinsic_index: Option<u32>,
    block_number: u64,
) -> Seq<u8> {
    seed + le_bytes(sender as nat, 8) + option_u32_bytes(extrinsic_index) + le_bytes(
        block_number as nat,
        8,
    )
}

/// The 128-bit Blake2 hash of `data`.
pub uninterp spec fn blake2_128_of(data: Seq<u8>) -> Seq<u8>;

/// Calls `Encode::encode` of `parity-scale-codec` on the tuple
/// `(seed, sender, extrinsic_index, block_number)`. The contract claims that
/// the codec writes a 32-byte array as its bytes, integers little-endian in
/// their width, an `Option` as a tag byte `0`/`1` followed by the value, and
/// a tuple as its fields in order.
#[verifier::external_body]
pub(crate) fn encode_payload(
    seed: &[u8; 32],
    sender: u64,
    extrinsic_index: Option<u32>,
    block_number: u64,
) -> (bytes: Vec<u8>)
    ensures
        bytes@ == payload_bytes(seed@, sender, extrinsic_index, block_number),
{
    (seed, &sender, extrinsic_index, block_number).encode()
}

/// Calls `sp_io::hashing::blake2_128`. The contract claims only that the
/// result is the hash of the bytes handed over, as named by `blake2_128_of`;
/// what the hash is takes the Blake2 specification to say and is not stated.
#[verifier::external_body]
pub(crate) fn blake2_128(data: &[u8]) -> (hash: [u8; 16])
    ensures
        hash@ == blake2_128_of(data@),
{
    sp_io::hashing::blake2_128(data)
}

} // verus!
