//! Key images: the compressed Ristretto encoding of `x * Hp(x * G)` for a
//! private key `x`, held as its 32 bytes and accepted on length alone.
//!
//! This module does not compute a key image from a private key: that takes
//! the ring signature's hash-to-point map and the `mc-crypto-keys`
//! private-key type, and neither is part of this crate or its dependencies.

use crate::dalek::{compressed_from_slice, zeroize_bytes};
use crate::encoding::bytes32_eq;
use crate::error::{Error, LengthMismatch};
use crate::byte_order::{
    bytes_order, compare_bytes32, lemma_bytes_order_first_difference, lemma_bytes_order_laws,
};
use core::cmp::Ordering;
use crate::hex::{hex_lower, hex_string};
use vstd::prelude::*;
use vstd::std_specs::cmp::{PartialEqSpec, PartialOrdSpec};

verus! {

/// The "image" of a private key `x`: I = x * Hp(x * G) = x * Hp(P).
#[derive(Clone, Copy, Debug, Eq, Ord, Hash)]
pub struct KeyImage {
    /// The compressed encoding of the curve point of the key image.
    pub point: [u8; 32],
}

impl View for KeyImage {
    type V = Seq<u8>;

    open spec fn view(&self) -> Seq<u8> {
        self.point@
    }
}

/// What decoding a key image from a byte string gives: an error on a
/// length other than 32, and otherwise the image holding those bytes.
pub open spec fn decoded_key_image(src: Seq<u8>) -> Result<Seq<u8>, Error> {
    if src.len() != 32 {
        Err(Error::LengthMismatch(32, src.len() as usize))
    } else {
        Ok(src)
    }
}

impl KeyImage {
    /// View the underlying compressed point as an array of bytes.
    pub fn as_bytes(&self) -> (r: &[u8; 32])
        ensures
            r@ == self@,
    {
        &self.point
    }

    /// Copies `self` into a new Vec.
    pub fn to_vec(&self) -> (r: Vec<u8>)
        ensures
            r@ == self@,
    {
        vstd::slice::slice_to_vec(self.point.as_slice())
    }

    /// A copy of the image's 32 bytes.
    pub fn to_bytes(&self) -> (r: [u8; 32])
        ensures
            r@ == self@,
    {
        self.point
    }

    /// Decodes a key image from 32 bytes; this never fails.
    pub fn from_bytes(src: &[u8; 32]) -> (r: Result<Self, Error>)
        ensures
            r == Ok::<KeyImage, Error>(KeyImage { point: *src }),
    {
        let r = Self::from_slice(src.as_slice());
        proof {
            if let Ok(k) = r {
                assert(k.point =~= *src);
            }
        }
        r
    }

    /// Decodes a key image from an array: any 32 bytes are accepted.
    pub fn from_array(src: [u8; 32]) -> (r: Result<Self, Error>)
        ensures
            r == Ok::<KeyImage, Error>(KeyImage { point: src }),
    {
        match compressed_from_slice(src.as_slice()) {
            Ok(point) => {
                assert(point =~= src);
                Ok(KeyImage { point })
            },
            Err(_e) => Err(Error::InvalidCurvePoint),
        }
    }

    /// Decodes a key image from a slice: only its length is checked.
    pub fn from_slice(src: &[u8]) -> (r: Result<Self, Error>)
        ensures
            r matches Ok(k) ==> k@ == src@,
            r matches Ok(_) <==> decoded_key_image(src@) is Ok,
            r matches Err(e) ==> decoded_key_image(src@) == Err::<Seq<u8>, Error>(e),
    {
        if src.len() != 32 {
            return Err(Error::from(LengthMismatch { expected: 32, found: src.len() }));
        }
        match compressed_from_slice(src) {
            Ok(point) => Ok(KeyImage { point }),
            Err(_e) => Err(Error::InvalidCurvePoint),
        }
    }

    /// The text form: the image's bytes in lower-case hexadecimal, two digits
    /// per byte, first byte first.
    pub fn to_hex_string(&self) -> (r: String)
        ensures
            r@ == hex_lower(self@),
    {
        hex_string(self.point.as_slice())
    }

    /// Overwrites the key image with zero bytes.
    pub fn zeroize(&mut self)
        ensures
            final(self)@ == Seq::new(32, |i: int| 0u8),
    {
        zeroize_bytes(&mut self.point);
    }
}

impl Default for KeyImage {
    /// The image holding the encoding of the identity point, all zero bytes.
    fn default() -> (r: Self)
        ensures
            r@ == Seq::new(32, |i: int| 0u8),
    {
        let point = [0u8; 32];
        assert(point@ =~= Seq::new(32, |i: int| 0u8));
        KeyImage { point }
    }
}

impl TryFrom<[u8; 32]> for KeyImage {
    type Error = Error;

    fn try_from(src: [u8; 32]) -> (r: Result<Self, Error>)
        ensures
            r == Ok::<KeyImage, Error>(KeyImage { point: src }),
    {
        Self::from_array(src)
    }
}

impl vstd::std_specs::convert::TryFromSpecImpl<[u8; 32]> for KeyImage {
    open spec fn obeys_try_from_spec() -> bool {
        true
    }

    open spec fn try_from_spec(src: [u8; 32]) -> Result<KeyImage, Error> {
        Ok(KeyImage { point: src })
    }
}

impl<'a> TryFrom<&'a [u8]> for KeyImage {
    type Error = Error;

    fn try_from(src: &'a [u8]) -> (r: Result<Self, Error>)
        ensures
            r matches Ok(k) ==> k@ == src@,
            r matches Ok(_) <==> decoded_key_image(src@) is Ok,
            r matches Err(e) ==> decoded_key_image(src@) == Err::<Seq<u8>, Error>(e),
    {
        let r = Self::from_slice(src);
        proof {
            if let Ok(k) = r {
                assert(k.point =~= key_image_with_bytes(src@).point);
            }
        }
        r
    }
}

/// The key image holding the 32 bytes `b`.
pub open spec fn key_image_with_bytes(b: Seq<u8>) -> KeyImage {
    choose|k: KeyImage| k@ == b
}

impl<'a> vstd::std_specs::convert::TryFromSpecImpl<&'a [u8]> for KeyImage {
    open spec fn obeys_try_from_spec() -> bool {
        true
    }

    open spec fn try_from_spec(src: &'a [u8]) -> Result<KeyImage, Error> {
        match decoded_key_image(src@) {
            Ok(b) => Ok(key_image_with_bytes(b)),
            Err(e) => Err(e),
        }
    }
}

/// Decoding is length-only, so every key image decodes back from its own
/// bytes, whatever they are.
pub proof fn lemma_key_image_roundtrip(k: KeyImage)
    ensures
        decoded_key_image(k@) == Ok::<Seq<u8>, Error>(k@),
        key_image_with_bytes(k@) == k,
{
    let c = key_image_with_bytes(k@);
    assert(c.point =~= k.point);
}

impl AsRef<[u8; 32]> for KeyImage {
    /// The image's 32 bytes, as `as_bytes` gives them.
    fn as_ref(&self) -> (r: &[u8; 32])
        ensures
            ({
                let bytes: &[u8; 32] = r;
                bytes@ == self@
            }),
    {
        self.as_bytes()
    }
}

impl AsRef<[u8]> for KeyImage {
    /// The image's 32 bytes, as a slice.
    fn as_ref(&self) -> (r: &[u8])
        ensures
            ({
                let bytes: &[u8] = r;
                bytes@ == self@
            }),
    {
        self.point.as_slice()
    }
}

/// Key images are ordered by their bytes, first byte first: two images
/// compare equal exactly when they are equal, which is what deduplicating
/// them by their raw bytes relies on; swapping them swaps `Less` and
/// `Greater`.
pub proof fn lemma_key_image_order(k: KeyImage, l: KeyImage)
    ensures
        bytes_order(k@, l@) == Ordering::Equal <==> k == l,
        bytes_order(k@, l@) == Ordering::Less <==> bytes_order(l@, k@) == Ordering::Greater,
{
    lemma_bytes_order_laws(k@, l@);
    if k@ == l@ {
        assert(k.point =~= l.point);
    }
}

/// `==` on key images compares all 32 bytes: two of them are equal exactly
/// when every byte agrees, and a difference in any one byte makes them
/// unequal.
pub proof fn lemma_key_image_eq_compares_all_bytes(k: KeyImage, l: KeyImage)
    ensures
        k@.len() == 32,
        l@.len() == 32,
        k.eq_spec(&l) <==> (forall|i: int| 0 <= i < 32 ==> k@[i] == l@[i]),
        k.eq_spec(&l) <==> k == l,
{
    if forall|i: int| 0 <= i < 32 ==> k@[i] == l@[i] {
        assert(k.point =~= l.point);
    }
}

/// `partial_cmp` on key images is the order of their 32 bytes, first byte
/// first, compared as unsigned numbers: at the first byte where two differ,
/// the one with the smaller byte comes first; with no difference they are
/// equal.
pub proof fn lemma_key_image_partial_cmp_first_difference(k: KeyImage, l: KeyImage, i: int)
    requires
        0 <= i < 32,
        forall|j: int| 0 <= j < i ==> k@[j] == l@[j],
    ensures
        k@[i] < l@[i] ==> k.partial_cmp_spec(&l) == Some(Ordering::Less),
        k@[i] > l@[i] ==> k.partial_cmp_spec(&l) == Some(Ordering::Greater),
        k == l <==> k.partial_cmp_spec(&l) == Some(Ordering::Equal),
{
    lemma_bytes_order_first_difference(k@, l@, i);
    lemma_bytes_order_laws(k@, l@);
    if k@ == l@ {
        assert(k.point =~= l.point);
    }
}

impl PartialOrd for KeyImage {
    fn partial_cmp(&self, other: &Self) -> (r: Option<Ordering>) {
        Some(compare_bytes32(&self.point, &other.point))
    }
}

impl vstd::std_specs::cmp::PartialOrdSpecImpl for KeyImage {
    open spec fn obeys_partial_cmp_spec() -> bool {
        true
    }

    open spec fn partial_cmp_spec(&self, other: &Self) -> Option<Ordering> {
        Some(bytes_order(self@, other@))
    }
}

impl PartialEq for KeyImage {
    fn eq(&self, other: &Self) -> (r: bool) {
        bytes32_eq(&self.point, &other.point)
    }
}

impl vstd::std_specs::cmp::PartialEqSpecImpl for KeyImage {
    open spec fn obeys_eq_spec() -> bool {
        true
    }

    open spec fn eq_spec(&self, other: &Self) -> bool {
        self@ == other@
    }
}

} // verus!
