//! A curve scalar: an element of the integers modulo the group order, held
//! as the canonical 32-byte little-endian encoding of its representative.

use crate::dalek::{scalar_from_u64, scalar_reduce, zeroize_bytes};
use crate::error::{Error, LengthMismatch};
use crate::encoding::{
    bytes32_eq, group_order, le_to_nat, lemma_group_order_fits, lemma_le_roundtrip,
    lemma_le_zeros, lemma_nat_to_le_value, nat_to_le,
};
use crate::byte_order::{
    bytes_order, compare_bytes32, lemma_bytes_order_first_difference, lemma_bytes_order_laws,
};
use core::cmp::Ordering;
use crate::hex::{hex_lower, hex_string};
use vstd::prelude::*;
use vstd::std_specs::cmp::{PartialEqSpec, PartialOrdSpec};

verus! {

/// The canonical 32-byte encoding of `bytes` read as a little-endian integer
/// and reduced modulo the group order.
pub open spec fn reduced_encoding(bytes: Seq<u8>) -> Seq<u8> {
    nat_to_le(le_to_nat(bytes) % group_order(), 32)
}

/// A curve scalar.
#[derive(Clone, Copy, Debug, Eq, Ord, Hash)]
pub struct CurveScalar {
    bytes: [u8; 32],
}

impl CurveScalar {
    /// The little-endian encoding of the scalar's representative.
    pub closed spec fn view(&self) -> Seq<u8> {
        self.bytes@
    }

    #[verifier::type_invariant]
    spec fn canonical(&self) -> bool {
        le_to_nat(self.bytes@) < group_order()
    }

    /// Construct a `CurveScalar` by reducing a 256-bit little-endian integer
    /// modulo the group order.
    pub fn from_bytes_mod_order(bytes: [u8; 32]) -> (r: Self)
        ensures
            r@ == reduced_encoding(bytes@),
            le_to_nat(r@) == le_to_nat(bytes@) % group_order(),
    {
        let reduced = scalar_reduce(bytes);
        proof {
            lemma_le_roundtrip(reduced@);
        }
        CurveScalar { bytes: reduced }
    }

    /// The little-endian byte encoding of the integer representing this
    /// scalar, which is below the group order.
    pub fn as_bytes(&self) -> (r: &[u8; 32])
        ensures
            r@ == self@,
            le_to_nat(r@) < group_order(),
    {
        proof {
            use_type_invariant(self);
        }
        &self.bytes
    }

    /// A copy of the scalar's little-endian byte encoding.
    pub fn to_bytes(&self) -> (r: [u8; 32])
        ensures
            r@ == self@,
            le_to_nat(r@) < group_order(),
    {
        proof {
            use_type_invariant(self);
        }
        self.bytes
    }

    /// Decodes a scalar from 32 bytes, reducing them modulo the group order;
    /// this never fails.
    pub fn from_bytes(src: &[u8; 32]) -> (r: Result<Self, Error>)
        ensures
            r matches Ok(s) && s@ == reduced_encoding(src@),
    {
        Ok(Self::from_bytes_mod_order(*src))
    }

    /// The scalar whose value is `val`.
    pub fn from_u64(val: u64) -> (r: Self)
        ensures
            r@ == nat_to_le(val as nat, 32),
            le_to_nat(r@) == val as nat,
    {
        let bytes = scalar_from_u64(val);
        proof {
            lemma_le_roundtrip(bytes@);
        }
        CurveScalar { bytes }
    }

    /// Decodes a scalar from a byte slice, which must be 32 bytes long; the
    /// bytes are reduced modulo the group order.
    pub fn from_slice(src: &[u8]) -> (r: Result<Self, Error>)
        ensures
            src@.len() != 32 ==> r == Err::<Self, Error>(Error::LengthMismatch(32, src@.len() as usize)),
            src@.len() == 32 ==> (r matches Ok(s) && s@ == reduced_encoding(src@)),
    {
        if src.len() != 32 {
            return Err(Error::from(LengthMismatch { expected: 32, found: src.len() }));
        }
        let mut arr = [0u8; 32];
        let mut i: usize = 0;
        while i < 32
            invariant
                i <= 32,
                src@.len() == 32,
                forall|j: int| 0 <= j < i ==> arr@[j] == src@[j],
            decreases 32 - i,
        {
            arr[i] = src[i];
            i += 1;
        }
        assert(arr@ =~= src@);
        Self::from_bytes(&arr)
    }

    /// The text form: the scalar's encoding in lower-case hexadecimal, two digits
    /// per byte, first byte first.
    pub fn to_hex_string(&self) -> (r: String)
        ensures
            r@ == hex_lower(self@),
    {
        hex_string(self.bytes.as_slice())
    }

    /// Overwrites the scalar with zero.
    pub fn zeroize(&mut self)
        ensures
            final(self)@ == nat_to_le(0, 32),
    {
        proof {
            lemma_zero_encoding();
        }
        zeroize_bytes(&mut self.bytes);
    }
}

/// The 32-byte encoding of zero is all zero bytes.
pub proof fn lemma_zero_encoding()
    ensures
        nat_to_le(0, 32) == Seq::new(32, |i: int| 0u8),
        le_to_nat(Seq::new(32, |i: int| 0u8)) == 0,
{
    lemma_le_zeros(32);
    lemma_le_roundtrip(Seq::new(32, |i: int| 0u8));
}

/// The scalar whose encoding is `e`, for a canonical 32-byte `e`.
pub open spec fn scalar_with_encoding(e: Seq<u8>) -> CurveScalar {
    choose|s: CurveScalar| s@ == e
}

/// Scalars with one encoding are one scalar; and one that has encoding `e`
/// is `scalar_with_encoding(e)`.
pub proof fn lemma_encoding_determines_scalar(s: CurveScalar, t: CurveScalar)
    ensures
        s@ == t@ ==> s == t,
        s == scalar_with_encoding(s@),
{
    if s@ == t@ {
        assert(s.bytes =~= t.bytes);
    }
    let c = scalar_with_encoding(s@);
    assert(c@ == s@);
    assert(c.bytes =~= s.bytes);
}

impl Default for CurveScalar {
    /// The scalar zero.
    fn default() -> (r: Self)
        ensures
            r@ == nat_to_le(0, 32),
    {
        let bytes = [0u8; 32];
        proof {
            assert(bytes@ =~= Seq::new(32, |i: int| 0u8));
            lemma_zero_encoding();
        }
        CurveScalar { bytes }
    }
}

impl From<u64> for CurveScalar {
    fn from(val: u64) -> (r: Self)
        ensures
            r@ == nat_to_le(val as nat, 32),
            le_to_nat(r@) == val as nat,
    {
        let r = Self::from_u64(val);
        proof {
            lemma_encoding_determines_scalar(r, r);
        }
        r
    }
}

impl vstd::std_specs::convert::FromSpecImpl<u64> for CurveScalar {
    open spec fn obeys_from_spec() -> bool {
        true
    }

    open spec fn from_spec(val: u64) -> CurveScalar {
        scalar_with_encoding(nat_to_le(val as nat, 32))
    }
}

impl<'a> From<&'a [u8; 32]> for CurveScalar {
    fn from(src: &'a [u8; 32]) -> (r: Self)
        ensures
            r@ == reduced_encoding(src@),
            le_to_nat(r@) == le_to_nat(src@) % group_order(),
    {
        let r = Self::from_bytes_mod_order(*src);
        proof {
            lemma_encoding_determines_scalar(r, r);
        }
        r
    }
}

impl<'a> vstd::std_specs::convert::FromSpecImpl<&'a [u8; 32]> for CurveScalar {
    open spec fn obeys_from_spec() -> bool {
        true
    }

    open spec fn from_spec(src: &'a [u8; 32]) -> CurveScalar {
        scalar_with_encoding(reduced_encoding(src@))
    }
}

impl<'a> TryFrom<&'a [u8]> for CurveScalar {
    type Error = Error;

    fn try_from(src: &'a [u8]) -> (r: Result<Self, Error>)
        ensures
            src@.len() != 32 ==> r == Err::<Self, Error>(Error::LengthMismatch(32, src@.len() as usize)),
            src@.len() == 32 ==> (r matches Ok(s) && s@ == reduced_encoding(src@)),
    {
        let r = Self::from_slice(src);
        proof {
            if let Ok(s) = r {
                lemma_encoding_determines_scalar(s, s);
            }
        }
        r
    }
}

impl<'a> vstd::std_specs::convert::TryFromSpecImpl<&'a [u8]> for CurveScalar {
    open spec fn obeys_try_from_spec() -> bool {
        true
    }

    open spec fn try_from_spec(src: &'a [u8]) -> Result<CurveScalar, Error> {
        if src@.len() != 32 {
            Err(Error::LengthMismatch(32, src@.len() as usize))
        } else {
            Ok(scalar_with_encoding(reduced_encoding(src@)))
        }
    }
}

/// Reduction gives a 32-byte encoding of a number below the group order,
/// congruent to what the input encodes.
pub proof fn lemma_reduced_encoding_is_canonical(bytes: Seq<u8>)
    ensures
        reduced_encoding(bytes).len() == 32,
        le_to_nat(reduced_encoding(bytes)) == le_to_nat(bytes) % group_order(),
        le_to_nat(reduced_encoding(bytes)) < group_order(),
{
    lemma_group_order_fits();
    lemma_nat_to_le_value(le_to_nat(bytes) % group_order(), 32);
}

/// Two byte strings reduce to the same scalar exactly when the numbers they
/// encode are congruent modulo the group order: a non-canonical encoding
/// such as `l + 2` collapses onto the canonical encoding of 2.
pub proof fn lemma_reduction_identifies_congruent(a: Seq<u8>, b: Seq<u8>)
    ensures
        reduced_encoding(a) == reduced_encoding(b) <==> le_to_nat(a) % group_order()
            == le_to_nat(b) % group_order(),
{
    lemma_reduced_encoding_is_canonical(a);
    lemma_reduced_encoding_is_canonical(b);
}

/// A canonical encoding (32 bytes encoding a number below the group order)
/// is left as it is by reduction; in particular every scalar's own bytes,
/// which `as_bytes` shows to be canonical, decode back to that scalar.
pub proof fn lemma_canonical_is_fixed(bytes: Seq<u8>)
    requires
        bytes.len() == 32,
        le_to_nat(bytes) < group_order(),
    ensures
        reduced_encoding(bytes) == bytes,
{
    lemma_le_roundtrip(bytes);
}

/// Reducing twice is reducing once.
pub proof fn lemma_reduction_idempotent(bytes: Seq<u8>)
    ensures
        reduced_encoding(reduced_encoding(bytes)) == reduced_encoding(bytes),
{
    lemma_reduced_encoding_is_canonical(bytes);
    lemma_canonical_is_fixed(reduced_encoding(bytes));
}

impl AsRef<[u8; 32]> for CurveScalar {
    /// The scalar's little-endian byte encoding, as `as_bytes` gives it.
    fn as_ref(&self) -> (r: &[u8; 32])
        ensures
            ({
                let bytes: &[u8; 32] = r;
                bytes@ == self@ && le_to_nat(bytes@) < group_order()
            }),
    {
        self.as_bytes()
    }
}

impl AsRef<[u8]> for CurveScalar {
    /// The scalar's little-endian byte encoding, as a slice.
    fn as_ref(&self) -> (r: &[u8])
        ensures
            ({
                let bytes: &[u8] = r;
                bytes@ == self@ && le_to_nat(bytes@) < group_order()
            }),
    {
        proof {
            use_type_invariant(self);
        }
        self.bytes.as_slice()
    }
}

/// Scalars are ordered by their encodings, byte by byte from the first: two
/// scalars compare equal exactly when they are equal, and swapping them
/// swaps `Less` and `Greater`.
pub proof fn lemma_scalar_order(s: CurveScalar, t: CurveScalar)
    ensures
        bytes_order(s@, t@) == Ordering::Equal <==> s == t,
        bytes_order(s@, t@) == Ordering::Less <==> bytes_order(t@, s@) == Ordering::Greater,
{
    lemma_bytes_order_laws(s@, t@);
    lemma_encoding_determines_scalar(s, t);
}

/// `==` on scalars compares all 32 bytes: two of them are equal exactly
/// when every byte agrees, and a difference in any one byte makes them
/// unequal.
pub proof fn lemma_scalar_eq_compares_all_bytes(s: CurveScalar, t: CurveScalar)
    ensures
        s@.len() == 32,
        t@.len() == 32,
        s.eq_spec(&t) <==> (forall|i: int| 0 <= i < 32 ==> s@[i] == t@[i]),
        s.eq_spec(&t) <==> s == t,
{
    if forall|i: int| 0 <= i < 32 ==> s@[i] == t@[i] {
        assert(s.bytes =~= t.bytes);
    }
}

/// `partial_cmp` on scalars is the order of their 32 bytes, first byte
/// first, compared as unsigned numbers: at the first byte where two differ,
/// the one with the smaller byte comes first; with no difference they are
/// equal.
pub proof fn lemma_scalar_partial_cmp_first_difference(s: CurveScalar, t: CurveScalar, i: int)
    requires
        0 <= i < 32,
        forall|j: int| 0 <= j < i ==> s@[j] == t@[j],
    ensures
        s@[i] < t@[i] ==> s.partial_cmp_spec(&t) == Some(Ordering::Less),
        s@[i] > t@[i] ==> s.partial_cmp_spec(&t) == Some(Ordering::Greater),
        s == t <==> s.partial_cmp_spec(&t) == Some(Ordering::Equal),
{
    lemma_bytes_order_first_difference(s@, t@, i);
    lemma_bytes_order_laws(s@, t@);
    if s@ == t@ {
        assert(s.bytes =~= t.bytes);
    }
}

impl PartialOrd for CurveScalar {
    fn partial_cmp(&self, other: &Self) -> (r: Option<Ordering>) {
        Some(compare_bytes32(&self.bytes, &other.bytes))
    }
}

impl vstd::std_specs::cmp::PartialOrdSpecImpl for CurveScalar {
    open spec fn obeys_partial_cmp_spec() -> bool {
        true
    }

    open spec fn partial_cmp_spec(&self, other: &Self) -> Option<Ordering> {
        Some(bytes_order(self@, other@))
    }
}

impl PartialEq for CurveScalar {
    fn eq(&self, other: &Self) -> (r: bool) {
        bytes32_eq(&self.bytes, &other.bytes)
    }
}

impl vstd::std_specs::cmp::PartialEqSpecImpl for CurveScalar {
    open spec fn obeys_eq_spec() -> bool {
        true
    }

    open spec fn eq_spec(&self, other: &Self) -> bool {
        self.view() == other.view()
    }
}

} // verus!
