use curve25519_dalek::ristretto::{CompressedRistretto, RistrettoPoint};
use mc_crypto_ring_signature::error::Error;
use mc_crypto_ring_signature::key_image::KeyImage;
use rand_core::SeedableRng;
use rand_hc::Hc128Rng;

#[test]
fn redteam_p1_key_image_try_from_is_length_only() {
    // All-ones: valid length, not a valid Ristretto encoding.
    let garbage = [0xffu8; 32];
    let ki = KeyImage::try_from(garbage)
        .expect("try_from accepts any 32 bytes (length-only validation)");
    assert!(
        CompressedRistretto(ki.point).decompress().is_none(),
        "all-ones is expected to be non-decompressable"
    );

    // Identity (all zeros) is a valid Ristretto point, also accepted unchecked.
    let identity = KeyImage::try_from([0u8; 32]).unwrap();
    assert_eq!(CompressedRistretto(identity.point), CompressedRistretto([0u8; 32]));
    assert!(CompressedRistretto(identity.point).decompress().is_some());

    // The &[u8] path is likewise length-only (rejects only on wrong length).
    assert!(KeyImage::try_from(&garbage[..]).is_ok());
    assert!(KeyImage::try_from(&[0u8; 31][..]).is_err());
}

#[test]
fn redteam_dblspend_key_image_encoding_is_canonical_and_injective() {
    let mut rng: Hc128Rng = SeedableRng::from_seed([7u8; 32]);
    let mut seen = std::collections::BTreeSet::new();

    for _ in 0..256 {
        let p = RistrettoPoint::random(&mut rng);
        let b = p.compress();

        // (a) canonical round-trip.
        assert_eq!(b.decompress().unwrap().compress(), b);

        // (c) injective: a fresh random point never collides with a prior one.
        let key_image = KeyImage::try_from(b.to_bytes()).unwrap();
        assert!(seen.insert(key_image), "two distinct points shared bytes");

        // (b) every single-byte perturbation that still decompresses must be
        //     a different point.
        let canonical = b.to_bytes();
        for i in 0..32 {
            let mut mutated = canonical;
            mutated[i] ^= 0x01;
            if let Some(q) = CompressedRistretto(mutated).decompress() {
                assert_ne!(
                    q, p,
                    "non-canonical encoding decompressed to the same point: \
                     key-image dedup could be bypassed (double-spend)"
                );
            }
        }
    }
}

#[test]
fn slice_of_wrong_length_reports_the_lengths() {
    assert_eq!(
        KeyImage::try_from(&[0u8; 31][..]),
        Err(Error::LengthMismatch(32, 31))
    );
    assert_eq!(
        KeyImage::from_slice(&[5u8; 40][..]),
        Err(Error::LengthMismatch(32, 40))
    );
}

#[test]
fn slice_of_32_bytes_is_kept_as_is() {
    let mut bytes = [0u8; 32];
    for (i, b) in bytes.iter_mut().enumerate() {
        *b = (i as u8).wrapping_mul(37).wrapping_add(11);
    }
    let k = KeyImage::try_from(&bytes[..]).unwrap();
    assert_eq!(k.as_bytes(), &bytes);
    assert_eq!(k.point, bytes);
}

#[test]
fn key_image_roundtrips_through_its_bytes() {
    let k = KeyImage { point: [0x5a; 32] };
    assert_eq!(KeyImage::try_from(&k.as_bytes()[..]), Ok(k));
    assert_eq!(KeyImage::from_bytes(&k.to_bytes()), Ok(k));
    assert_eq!(KeyImage::from_array(k.to_bytes()), Ok(k));
}

#[test]
fn to_vec_copies_the_bytes() {
    let k = KeyImage { point: [9u8; 32] };
    let v = k.to_vec();
    assert_eq!(v.len(), 32);
    assert_eq!(&v[..], &k.as_bytes()[..]);
}

#[test]
fn default_is_the_identity_and_zeroize_clears() {
    assert_eq!(KeyImage::default().point, [0u8; 32]);
    let mut k = KeyImage { point: [0xee; 32] };
    k.zeroize();
    assert_eq!(k, KeyImage::default());
}

#[test]
fn key_images_compare_by_bytes() {
    let a = KeyImage { point: [1u8; 32] };
    let b = KeyImage { point: [2u8; 32] };
    assert!(a < b);
    assert_ne!(a, b);
    assert_eq!(a, KeyImage { point: [1u8; 32] });
}

#[test]
fn key_image_as_ref_views_the_bytes() {
    let k = KeyImage { point: [3u8; 32] };
    let arr: &[u8; 32] = k.as_ref();
    let slice: &[u8] = k.as_ref();
    assert_eq!(arr, &[3u8; 32]);
    assert_eq!(slice, &[3u8; 32][..]);
}

#[test]
fn partial_cmp_is_the_byte_order() {
    let mut x = [0u8; 32];
    let mut y = [0u8; 32];
    x[5] = 3;
    y[5] = 3;
    y[6] = 1;
    let a = KeyImage { point: x };
    let b = KeyImage { point: y };
    assert_eq!(a.partial_cmp(&b), Some(core::cmp::Ordering::Less));
    assert_eq!(b.partial_cmp(&a), Some(core::cmp::Ordering::Greater));
    assert_eq!(a.partial_cmp(&a), Some(core::cmp::Ordering::Equal));
    assert_eq!(a.partial_cmp(&b), Some(a.cmp(&b)));
    assert_eq!(x.cmp(&y), a.cmp(&b));
}

#[test]
fn key_image_hex_text() {
    let mut point = [0u8; 32];
    point[0] = 0xfe;
    point[31] = 0x0a;
    let k = KeyImage { point };
    let text = k.to_hex_string();
    assert_eq!(text.len(), 64);
    assert_eq!(&text[..2], "fe");
    assert_eq!(&text[62..], "0a");
    assert_eq!(&text[2..62], "00".repeat(30));
}
