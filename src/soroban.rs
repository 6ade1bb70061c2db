//! The Soroban-facing verifier: a pinned key commitment and the one verification call.
use crate::codec::{
    decode_inputs, decode_key, decode_proof, key_count, key_decodes, key_points, proof_decodes,
};
use crate::host::{sha256, sha256_of};
use crate::types::{views, VerifyError};
use crate::verify_utils::{aggregate, all_scalars, pairing_check, prepare_vk, verify};
use soroban_sdk::Env;
use vstd::prelude::*;

verus! {

/// The Groth16 verdict on the encoded proof `proof` against the encoded key
/// `key` for the public inputs `inputs`.
pub open spec fn accepts_encoded(key: Seq<u8>, proof: Seq<u8>, inputs: Seq<Seq<u8>>) -> bool {
    pairing_check(
        proof.subrange(0, 96),
        proof.subrange(96, 288),
        proof.subrange(288, 384),
        aggregate(key_points(key), inputs),
        key.subrange(0, 96),
        key.subrange(96, 288),
        key.subrange(288, 480),
        key.subrange(480, 672),
    )
}

/// Checks Groth16 proofs against the one verifying key whose digest it holds.
pub struct SorobanGroth16Verifier {
    /// SHA-256 digest of the encoded verifying key that this verifier trusts.
    pub vk_hash: [u8; 32],
}

impl SorobanGroth16Verifier {
    /// A verifier that trusts the key whose digest is `hash`.
    pub fn load_with_vk_hash(hash: [u8; 32]) -> (r: Self)
        ensures
            r.vk_hash@ == hash@,
    {
        SorobanGroth16Verifier { vk_hash: hash }
    }

    /// What a verification call answers, given the digest `digest` of the key
    /// bytes: first the key commitment, then the decoding of key, proof and
    /// inputs, then the number of inputs, and last the pairing equation.
    pub open spec fn outcome(
        &self,
        digest: Seq<u8>,
        key: Seq<u8>,
        proof: Seq<u8>,
        inputs: Seq<Seq<u8>>,
    ) -> Result<bool, VerifyError> {
        if digest != self.vk_hash@ {
            Err(VerifyError::KeyMismatch)
        } else if !key_decodes(key) || !proof_decodes(proof) || !all_scalars(inputs) {
            Err(VerifyError::Decode)
        } else if inputs.len() + 1 != key_count(key) {
            Err(VerifyError::MalformedKey)
        } else {
            Ok(accepts_encoded(key, proof, inputs))
        }
    }

    /// Verifies `proof_bytes` against `key_bytes` for the public inputs
    /// `image_vbytes`, where `key_digest` is the SHA-256 digest of
    /// `key_bytes`. No pairing is computed unless the digest matches and
    /// every buffer decodes to an object of the right size.
    pub fn verify_with_key_digest(
        &self,
        key_digest: &[u8; 32],
        key_bytes: &[u8],
        proof_bytes: &[u8],
        image_vbytes: &[Vec<u8>],
    ) -> (r: Result<bool, VerifyError>)
        ensures
            r == self.outcome(key_digest@, key_bytes@, proof_bytes@, views(image_vbytes@)),
    {
        if !digest_eq(key_digest, &self.vk_hash) {
            return Err(VerifyError::KeyMismatch);
        }
        let vk = decode_key(key_bytes)?;
        let proof = decode_proof(proof_bytes)?;
        let inputs = decode_inputs(image_vbytes)?;
        assert(proof_bytes@.subrange(0, 96) =~= proof.a@);
        assert(proof_bytes@.subrange(96, 288) =~= proof.b@);
        assert(proof_bytes@.subrange(288, 384) =~= proof.c@);
        if inputs.len() >= vk.gamma_abc_g1.len() || inputs.len() + 1 != vk.gamma_abc_g1.len() {
            return Err(VerifyError::MalformedKey);
        }
        let prep_vk = prepare_vk(&vk);
        verify(proof, prep_vk, inputs.as_slice())
    }

    /// Verifies `proof_bytes` against `key_bytes` for the public inputs
    /// `image_vbytes`, asking the host for the digest of the key bytes.
    pub fn verify(
        &self,
        env: &Env,
        key_bytes: &[u8],
        proof_bytes: &[u8],
        image_vbytes: &[Vec<u8>],
    ) -> (r: Result<bool, VerifyError>)
        ensures
            r == self.outcome(sha256_of(key_bytes@), key_bytes@, proof_bytes@, views(image_vbytes@)),
    {
        let digest = sha256(env, key_bytes);
        self.verify_with_key_digest(&digest, key_bytes, proof_bytes, image_vbytes)
    }
}

/// Key-commitment binding: whatever the key, proof and inputs, a call whose
/// key digest differs from the pinned one answers `KeyMismatch`, ahead of any
/// decoding or pairing.
pub proof fn lemma_key_binding(
    v: &SorobanGroth16Verifier,
    digest: Seq<u8>,
    key: Seq<u8>,
    proof: Seq<u8>,
    inputs: Seq<Seq<u8>>,
)
    requires
        digest != v.vk_hash@,
    ensures
        v.outcome(digest, key, proof, inputs) == Err::<bool, VerifyError>(VerifyError::KeyMismatch),
{
}

/// Length invariant: with the pinned key and well-formed buffers, a key that
/// does not hold one more `gamma_abc_g1` point than there are inputs answers
/// `MalformedKey`, never a verdict.
pub proof fn lemma_input_count(
    v: &SorobanGroth16Verifier,
    key: Seq<u8>,
    proof: Seq<u8>,
    inputs: Seq<Seq<u8>>,
)
    requires
        key_decodes(key),
        proof_decodes(proof),
        all_scalars(inputs),
        inputs.len() + 1 != key_count(key),
    ensures
        v.outcome(v.vk_hash@, key, proof, inputs) == Err::<bool, VerifyError>(
            VerifyError::MalformedKey,
        ),
{
}

/// Determinism: two verifiers pinned to the same digest answer the same bytes
/// alike, and so do two calls on one verifier.
pub proof fn lemma_deterministic(
    v: &SorobanGroth16Verifier,
    w: &SorobanGroth16Verifier,
    key: Seq<u8>,
    proof: Seq<u8>,
    inputs: Seq<Seq<u8>>,
)
    requires
        v.vk_hash@ == w.vk_hash@,
    ensures
        v.outcome(sha256_of(key), key, proof, inputs) == w.outcome(
            sha256_of(key),
            key,
            proof,
            inputs,
        ),
{
}

/// Byte-for-byte equality of two digests.
fn digest_eq(x: &[u8; 32], y: &[u8; 32]) -> (r: bool)
    ensures
        r == (x@ == y@),
{
    let mut i: usize = 0;
    while i < 32
        invariant
            i <= 32,
            x@.len() == 32 && y@.len() == 32,
            x@.subrange(0, i as int) == y@.subrange(0, i as int),
        decreases 32 - i,
    {
        if x[i] != y[i] {
            return false;
        }
        assert(x@.subrange(0, i + 1) =~= x@.subrange(0, i as int).push(x@[i as int]));
        assert(y@.subrange(0, i + 1) =~= y@.subrange(0, i as int).push(y@[i as int]));
        i = i + 1;
    }
    assert(x@.subrange(0, 32) =~= x@);
    assert(y@.subrange(0, 32) =~= y@);
    true
}

} // verus!
