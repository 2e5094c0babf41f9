//! The calls into curve25519-dalek and zeroize, each with the contract
//! that its documentation and source give it.

use crate::encoding::{group_order, le_to_nat};
use curve25519_dalek::scalar::Scalar;
use vstd::prelude::*;

verus! {

/// Calls `curve25519_dalek::scalar::Scalar::from_bytes_mod_order` and hands
/// back `Scalar::to_bytes` of the result. The crate documents the first as
/// reducing a 256-bit little-endian integer modulo the group order, and the
/// second as the little-endian encoding of the integer that the scalar holds;
/// the contract says exactly that: the result encodes the input's value
/// modulo the group order.
#[verifier::external_body]
pub(crate) fn scalar_reduce(bytes: [u8; 32]) -> (r: [u8; 32])
    ensures
        le_to_nat(r@) == le_to_nat(bytes@) % group_order(),
{
    Scalar::from_bytes_mod_order(bytes).to_bytes()
}

} // verus!

verus! {

/// Calls `curve25519_dalek::scalar::Scalar::from(u64)` and hands back
/// `Scalar::to_bytes` of the result. The crate documents the scalar as the
/// one corresponding to the input, and its source writes the input's
/// little-endian bytes followed by zeros; the contract says that the result
/// encodes the input's value.
#[verifier::external_body]
pub(crate) fn scalar_from_u64(val: u64) -> (r: [u8; 32])
    ensures
        le_to_nat(r@) == val as nat,
{
    Scalar::from(val).to_bytes()
}

/// Calls `zeroize::Zeroize::zeroize` on a byte array. The crate's impl for
/// arrays writes the default value, zero, into each element (with volatile
/// writes); the contract says that every byte is zero afterwards, and that
/// the call does not unwind, as nothing in that impl can panic.
#[verifier::external_body]
pub(crate) fn zeroize_bytes(bytes: &mut [u8; 32])
    ensures
        final(bytes)@ == Seq::new(32, |i: int| 0u8),
    no_unwind
{
    zeroize::Zeroize::zeroize(bytes)
}

} // verus!

verus! {

#[verifier::external_type_specification]
#[verifier::external_body]
pub struct ExTryFromSliceError(core::array::TryFromSliceError);

/// Calls `curve25519_dalek::ristretto::CompressedRistretto::from_slice` and
/// hands back the bytes of the compressed point. Its source converts the
/// slice into a 32-byte array and wraps it, so it succeeds exactly on slices
/// of 32 bytes, and the point holds those bytes; the contract says that.
#[verifier::external_body]
pub(crate) fn compressed_from_slice(src: &[u8]) -> (r: Result<[u8; 32], core::array::TryFromSliceError>)
    ensures
        r is Ok <==> src@.len() == 32,
        r matches Ok(b) ==> b@ == src@,
{
    match curve25519_dalek::ristretto::CompressedRistretto::from_slice(src) {
        Ok(point) => Ok(point.to_bytes()),
        Err(e) => Err(e),
    }
}

} // verus!
