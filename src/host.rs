//! What the library takes from the Soroban host: its SHA-256 digest.
use soroban_sdk::{Bytes, Env};
use vstd::prelude::*;

verus! {

/// The Soroban host environment.
#[verifier::external_type_specification]
#[verifier::external_body]
pub struct ExEnv(Env);

/// The SHA-256 digest of `data`.
pub uninterp spec fn sha256_of(data: Seq<u8>) -> Seq<u8>;

/// Relies on soroban_sdk's `Crypto::sha256`, which asks the host for the
/// 32-byte SHA-256 digest of the bytes. The host meters the work and ends the
/// whole invocation when its budget runs out.
#[verifier::external_body]
pub(crate) fn sha256(env: &Env, data: &[u8]) -> (r: [u8; 32])
    ensures
        r@ == sha256_of(data@),
{
    env.crypto().sha256(&Bytes::from_slice(env, data)).to_array()
}

} // verus!
