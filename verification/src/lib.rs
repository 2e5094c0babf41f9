//! Curve scalars and key images for ring signatures, with the byte-level
//! rules they obey stated as contracts: scalars are always kept as the
//! canonical little-endian encoding of an integer below the group order, and
//! key images are 32-byte compressed Ristretto encodings accepted on length
//! alone.

pub mod byte_order;
pub mod encoding;
pub mod hex;
pub mod error;
mod dalek;
pub mod curve_scalar;
pub mod key_image;
pub mod range_proof_input;
