use curve25519_dalek::scalar::Scalar;
use mc_crypto_ring_signature::curve_scalar::CurveScalar;
use mc_crypto_ring_signature::error::Error;

// `l + 2` as raw little-endian bytes (l = the group order).
const L_PLUS_TWO_BYTES: [u8; 32] = [
    0xef, 0xd3, 0xf5, 0x5c, 0x1a, 0x63, 0x12, 0x58, 0xd6, 0x9c, 0xf7, 0xa2, 0xde, 0xf9, 0xde,
    0x14, 0x00, 0x00, 0x00, 0x00, 0x00, 0x00, 0x00, 0x00, 0x00, 0x00, 0x00, 0x00, 0x00, 0x00,
    0x00, 0x10,
];

fn scalar_of(curve_scalar: &CurveScalar) -> Scalar {
    Scalar::from_canonical_bytes(*curve_scalar.as_bytes()).unwrap()
}

#[test]
fn test_to_from_bytes() {
    let one = Scalar::ONE;
    let curve_scalar = CurveScalar::from_bytes_mod_order(*one.as_bytes());
    assert_eq!(scalar_of(&curve_scalar), one);
    assert_eq!(curve_scalar.as_bytes(), one.as_bytes());
}

#[test]
fn test_from_bytes_mod_order() {
    // All arithmetic on `Scalars` is done modulo l. This number is larger.
    let l_plus_two_bytes: [u8; 32] = L_PLUS_TWO_BYTES;

    let curve_scalar = CurveScalar::from_bytes_mod_order(l_plus_two_bytes);
    let two: Scalar = Scalar::ONE + Scalar::ONE;

    assert_eq!(scalar_of(&curve_scalar), two);
}

#[test]
fn redteam_p2_noncanonical_scalar_reduces_and_canonicalizes() {
    let l_plus_two_bytes: [u8; 32] = L_PLUS_TWO_BYTES;
    // Canonical encoding of the scalar 2.
    let mut canonical_two = [0u8; 32];
    canonical_two[0] = 2;

    let from_noncanonical = CurveScalar::from_bytes_mod_order(l_plus_two_bytes);
    let from_canonical = CurveScalar::from_bytes_mod_order(canonical_two);

    // (1) Non-canonical input is accepted and reduced to 2.
    assert_eq!(scalar_of(&from_noncanonical), scalar_of(&from_canonical));
    assert_eq!(from_noncanonical, from_canonical);

    // (2) Both re-encode to the canonical bytes of 2.
    assert_eq!(from_noncanonical.as_bytes(), &canonical_two);
    assert_eq!(from_noncanonical.as_bytes(), from_canonical.as_bytes());

    // (3) The slice decoder also accepts the non-canonical encoding.
    let via_wire = CurveScalar::try_from(&l_plus_two_bytes[..]).unwrap();
    assert_eq!(via_wire, from_canonical);
}

#[test]
fn reduces_all_ones_to_two_to_the_256_minus_one_mod_l() {
    let biggest = CurveScalar::from_bytes_mod_order([0xff; 32]);
    let expected: [u8; 32] = [
        28, 149, 152, 141, 116, 49, 236, 214, 112, 207, 125, 115, 244, 91, 239, 198, 254, 255,
        255, 255, 255, 255, 255, 255, 255, 255, 255, 255, 255, 255, 255, 15,
    ];
    assert_eq!(biggest.as_bytes(), &expected);
    assert_eq!(biggest.to_bytes(), expected);
}

#[test]
fn reduces_the_group_order_to_zero() {
    let mut l = L_PLUS_TWO_BYTES;
    l[0] -= 2;
    let zero = CurveScalar::from_bytes_mod_order(l);
    assert_eq!(zero.as_bytes(), &[0u8; 32]);
    assert_eq!(zero, CurveScalar::default());
}

#[test]
fn canonical_bytes_are_kept_and_reduction_is_idempotent() {
    let mut bytes = [0u8; 32];
    bytes[0] = 0x2a;
    bytes[17] = 0x99;
    bytes[31] = 0x0f;
    let s = CurveScalar::from_bytes_mod_order(bytes);
    assert_eq!(s.as_bytes(), &bytes);
    let again = CurveScalar::from_bytes_mod_order(*s.as_bytes());
    assert_eq!(again, s);
    let once = CurveScalar::from_bytes_mod_order([0xab; 32]);
    let twice = CurveScalar::from_bytes_mod_order(once.to_bytes());
    assert_eq!(once, twice);
}

#[test]
fn congruent_encodings_give_one_scalar() {
    let mut canonical_two = [0u8; 32];
    canonical_two[0] = 2;
    let a = CurveScalar::from_bytes_mod_order(L_PLUS_TWO_BYTES);
    let b = CurveScalar::from_bytes_mod_order(canonical_two);
    assert_eq!(a, b);
    let mut three = [0u8; 32];
    three[0] = 3;
    assert_ne!(a, CurveScalar::from_bytes_mod_order(three));
}

#[test]
fn from_u64_holds_the_value() {
    let five = CurveScalar::from(5u64);
    let mut expected = [0u8; 32];
    expected[0] = 5;
    assert_eq!(five.as_bytes(), &expected);

    let big = CurveScalar::from_u64(0x0102_0304_0506_0708);
    let mut expected = [0u8; 32];
    expected[..8].copy_from_slice(&[8, 7, 6, 5, 4, 3, 2, 1]);
    assert_eq!(big.to_bytes(), expected);
    assert_eq!(scalar_of(&big), Scalar::from(0x0102_0304_0506_0708u64));
}

#[test]
fn from_array_reference_reduces() {
    let s = CurveScalar::from(&L_PLUS_TWO_BYTES);
    let mut canonical_two = [0u8; 32];
    canonical_two[0] = 2;
    assert_eq!(s.as_bytes(), &canonical_two);
}

#[test]
fn repr_bytes_roundtrip() {
    let s = CurveScalar::from(123_456_789u64);
    let bytes = s.to_bytes();
    assert_eq!(CurveScalar::from_bytes(&bytes), Ok(s));
    assert_eq!(
        CurveScalar::from_bytes(&L_PLUS_TWO_BYTES),
        Ok(CurveScalar::from(2u64))
    );
}

#[test]
fn slice_of_wrong_length_is_refused() {
    let short = [1u8; 31];
    assert_eq!(
        CurveScalar::try_from(&short[..]),
        Err(Error::LengthMismatch(32, 31))
    );
    let long = [1u8; 33];
    assert_eq!(
        CurveScalar::from_slice(&long[..]),
        Err(Error::LengthMismatch(32, 33))
    );
    assert_eq!(
        CurveScalar::from_slice(&[]),
        Err(Error::LengthMismatch(32, 0))
    );
}

#[test]
fn zeroize_clears_the_scalar() {
    let mut s = CurveScalar::from(77u64);
    s.zeroize();
    assert_eq!(s.as_bytes(), &[0u8; 32]);
    assert_eq!(s, CurveScalar::default());
}

#[test]
fn scalars_order_by_their_bytes() {
    // The order is that of the 32-byte encodings, compared byte by byte from
    // the first (least significant) byte: 256 = [0, 1, ..] comes before 1.
    let a = CurveScalar::from(1u64);
    let b = CurveScalar::from(256u64);
    assert!(b < a);
    assert_eq!(a.cmp(&a), core::cmp::Ordering::Equal);
}

#[test]
fn as_ref_views_the_bytes() {
    let s = CurveScalar::from(300u64);
    let arr: &[u8; 32] = s.as_ref();
    let slice: &[u8] = s.as_ref();
    assert_eq!(arr, s.as_bytes());
    assert_eq!(slice, &s.as_bytes()[..]);
    assert_eq!(&slice[..2], &[44, 1]);
}

#[test]
fn partial_cmp_agrees_with_cmp() {
    let values = [0u64, 1, 2, 255, 256, 257, 65_536, u64::MAX];
    for &x in &values {
        for &y in &values {
            let a = CurveScalar::from(x);
            let b = CurveScalar::from(y);
            assert_eq!(a.partial_cmp(&b), Some(a.cmp(&b)));
            assert_eq!(a.cmp(&b), a.to_bytes().cmp(&b.to_bytes()));
            assert_eq!(a.partial_cmp(&b) == Some(core::cmp::Ordering::Equal), x == y);
        }
    }
}

#[test]
fn test_curve_scalar_roundtrip() {
    // CurveScalar should encode to bytes and decode back to itself.
    let five = CurveScalar::from(5u64);
    let bytes = five.to_bytes();
    let result: CurveScalar = CurveScalar::from_bytes(&bytes).unwrap();
    assert_eq!(five, result);
}

#[test]
fn hex_text_is_lower_case_bytes_in_order() {
    let s = CurveScalar::from(0xab01u64);
    let mut expected = String::from("01ab");
    expected.push_str(&"00".repeat(30));
    assert_eq!(s.to_hex_string(), expected);
    let two = CurveScalar::from_bytes_mod_order(L_PLUS_TWO_BYTES);
    assert_eq!(two.to_hex_string(), format!("02{}", "00".repeat(31)));
}
