//! Groth16 proof verification over the BLS12-377 pairing-friendly curve.
//!
//! Curve points, scalars and target-field elements are carried as their
//! canonical, uncompressed encodings; the algebra on them is done by the
//! arkworks libraries behind the small trusted boundary in [`curve`], and the
//! key digest by the Soroban host behind [`host`]. Everything else (framing of
//! keys and proofs, the key-commitment gate, the input aggregation and the
//! pairing equation) is verified.
pub mod codec;
pub mod curve;
pub mod host;
pub mod proof_wrap;
pub mod types;
pub mod soroban;
pub mod verify_utils;
