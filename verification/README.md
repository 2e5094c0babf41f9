# mc_crypto_ring_signature

Curve scalars and key images for ring signatures, verified with Verus.

- `src/encoding.rs`: little-endian encodings of natural numbers, the group
  order, and the lemmas relating the two.
- `src/curve_scalar.rs`: `CurveScalar`, always the canonical 32-byte
  encoding of a residue modulo the group order; reduction, decoding and the
  laws it obeys (congruent inputs give one scalar, canonical bytes are kept).
- `src/key_image.rs`: `KeyImage`, a compressed Ristretto encoding accepted on
  length alone, with its decoders and their round trip. The crate does not
  compute a key image from a private key: that takes the ring signature's
  hash-to-point map and the `mc-crypto-keys` private-key type, and neither
  is part of this crate or its dependencies.
- `src/hex.rs`: the lower-case hexadecimal text form of both types.
- `src/byte_order.rs`: the lexicographic byte order by which both types are
  compared.
- `src/range_proof_input.rs`: how arbitrary bytes are cut into commitments
  and a candidate range-proof encoding.
- `src/dalek.rs`: the calls into curve25519-dalek and zeroize, with the
  contracts that are trusted.
- `app/lib.rs`: conversions to and from dalek's own types, random scalars,
  and the serde forms of both types.
