//! The one cryptographic primitive the covenant rests on: SHA-256, called
//! through the `bitcoin` crate's hash implementation.

use vstd::prelude::*;

verus! {

/// One byte of the SHA-256 digest of a byte sequence: a function of the
/// input bytes and the position alone. What it is on given bytes is left
/// to the implementation below.
pub uninterp spec fn sha256_byte(bytes: Seq<u8>, i: int) -> u8;

/// The SHA-256 digest of a byte sequence: 32 bytes, each a function of
/// the input alone.
pub open spec fn sha256_of(bytes: Seq<u8>) -> Seq<u8> {
    Seq::new(32, |i: int| sha256_byte(bytes, i))
}

/// Relies on `bitcoin::hashes::sha256::Hash::hash`: the 32-byte SHA-256
/// digest of the input, a function of the input bytes alone.
#[verifier::external_body]
pub fn sha256(bytes: &Vec<u8>) -> (r: [u8; 32])
    ensures
        r@ == sha256_of(bytes@),
        forall|i: int| 0 <= i < 32 ==> r@[i] == sha256_byte(bytes@, i),
{
    let h = <bitcoin::hashes::sha256::Hash as bitcoin::hashes::Hash>::hash(bytes.as_slice());
    <bitcoin::hashes::sha256::Hash as bitcoin::hashes::Hash>::to_byte_array(h)
}

} // verus!
