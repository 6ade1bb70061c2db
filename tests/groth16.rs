use ark_bls12_377::{Bls12_377, Fr, G1Affine, G2Affine};
use ark_ec::{AffineCurve, PairingEngine, ProjectiveCurve};
use ark_ff::{One, PrimeField};
use ark_groth16::{create_random_proof, generate_random_parameters};
use ark_relations::r1cs::{
    ConstraintSynthesizer, ConstraintSystemRef, LinearCombination, SynthesisError, Variable,
};
use ark_serialize::CanonicalSerialize;
use groth16_verifier::codec::{decode_key, decode_proof, encode_key, encode_proof};
use groth16_verifier::soroban::SorobanGroth16Verifier;
use groth16_verifier::types::VerifyError;
use groth16_verifier::verify_utils::{aggregate_inputs, prepare_vk, verify, verify_eq};
use soroban_sdk::{Bytes, Env};
use std::ops::Neg;

/// `x = w^3 + w + 5`, with `x` public and `w` secret.
struct Cubic {
    w: u64,
}

impl ConstraintSynthesizer<Fr> for Cubic {
    fn generate_constraints(self, cs: ConstraintSystemRef<Fr>) -> Result<(), SynthesisError> {
        let w_val = Fr::from(self.w);
        let x_val = w_val * w_val * w_val + w_val + Fr::from(5u64);
        let x = cs.new_input_variable(|| Ok(x_val))?;
        let w = cs.new_witness_variable(|| Ok(w_val))?;
        let w2 = cs.new_witness_variable(|| Ok(w_val * w_val))?;
        let w3 = cs.new_witness_variable(|| Ok(w_val * w_val * w_val))?;
        cs.enforce_constraint(LinearCombination::from(w), LinearCombination::from(w), LinearCombination::from(w2))?;
        cs.enforce_constraint(LinearCombination::from(w2), LinearCombination::from(w), LinearCombination::from(w3))?;
        let sum = LinearCombination::from(w3) + w + (Fr::from(5u64), Variable::One);
        cs.enforce_constraint(sum, LinearCombination::from(Variable::One), LinearCombination::from(x))?;
        Ok(())
    }
}

fn ser<T: CanonicalSerialize>(t: &T) -> Vec<u8> {
    let mut out = Vec::new();
    t.serialize_uncompressed(&mut out).unwrap();
    out
}

/// Key and proof bytes for `x = 35` (`w = 3`).
fn fixture() -> (Vec<u8>, Vec<u8>) {
    let mut rng = ark_std::test_rng();
    let params = generate_random_parameters::<Bls12_377, _, _>(Cubic { w: 3 }, &mut rng).unwrap();
    let proof = create_random_proof(Cubic { w: 3 }, &params, &mut rng).unwrap();
    (ser(&params.vk), ser(&proof))
}

fn scalar(n: u64) -> Vec<u8> {
    ser(&Fr::from(n))
}

fn digest(env: &Env, b: &[u8]) -> [u8; 32] {
    env.crypto().sha256(&Bytes::from_slice(env, b)).to_array()
}

fn run(key: &[u8], proof: &[u8], inputs: &[Vec<u8>]) -> Result<bool, VerifyError> {
    let env = Env::default();
    let v = SorobanGroth16Verifier::load_with_vk_hash(digest(&env, key));
    v.verify(&env, key, proof, inputs)
}

#[test]
fn verify_test() {
    let (key, proof) = fixture();
    let res = run(&key, &proof, &[scalar(35)]);
    assert_eq!(res, Ok(true));
}

#[test]
fn rejects_wrong_public_input() {
    let (key, proof) = fixture();
    assert_eq!(run(&key, &proof, &[scalar(36)]), Ok(false));
}

#[test]
fn missing_input_is_malformed_key() {
    let (key, proof) = fixture();
    assert_eq!(run(&key, &proof, &[]), Err(VerifyError::MalformedKey));
}

#[test]
fn extra_input_is_malformed_key() {
    let (key, proof) = fixture();
    assert_eq!(run(&key, &proof, &[scalar(35), scalar(1)]), Err(VerifyError::MalformedKey));
}

#[test]
fn other_key_is_key_mismatch() {
    let (key, proof) = fixture();
    let env = Env::default();
    let v = SorobanGroth16Verifier::load_with_vk_hash([7u8; 32]);
    assert_eq!(v.verify(&env, &key, &proof, &[scalar(35)]), Err(VerifyError::KeyMismatch));
    // the commitment is checked before the key is decoded
    assert_eq!(v.verify(&env, &[1, 2, 3], &proof, &[scalar(35)]), Err(VerifyError::KeyMismatch));
}

#[test]
fn key_digest_is_the_host_sha256() {
    let (key, proof) = fixture();
    let env = Env::default();
    let d = digest(&env, &key);
    let v = SorobanGroth16Verifier::load_with_vk_hash(d);
    assert_eq!(v.vk_hash, d);
    assert_eq!(v.verify_with_key_digest(&d, &key, &proof, &[scalar(35)]), Ok(true));
    let mut other = d;
    other[31] ^= 1;
    assert_eq!(
        v.verify_with_key_digest(&other, &key, &proof, &[scalar(35)]),
        Err(VerifyError::KeyMismatch)
    );
}

#[test]
fn repeated_calls_agree() {
    let (key, proof) = fixture();
    let env = Env::default();
    let v = SorobanGroth16Verifier::load_with_vk_hash(digest(&env, &key));
    let first = v.verify(&env, &key, &proof, &[scalar(36)]);
    let second = v.verify(&env, &key, &proof, &[scalar(36)]);
    assert_eq!(first, second);
}

#[test]
fn truncated_or_padded_proof_is_decode_error() {
    let (key, proof) = fixture();
    assert_eq!(run(&key, &proof[..383], &[scalar(35)]), Err(VerifyError::Decode));
    let mut longer = proof.clone();
    longer.push(0);
    assert_eq!(run(&key, &longer, &[scalar(35)]), Err(VerifyError::Decode));
}

#[test]
fn padded_key_is_decode_error() {
    let (mut key, proof) = fixture();
    key.push(0);
    assert_eq!(run(&key, &proof, &[scalar(35)]), Err(VerifyError::Decode));
}

#[test]
fn bad_input_is_decode_error() {
    let (key, proof) = fixture();
    assert_eq!(run(&key, &proof, &[vec![0u8; 31]]), Err(VerifyError::Decode));
    assert_eq!(run(&key, &proof, &[vec![0xffu8; 32]]), Err(VerifyError::Decode));
}

#[test]
fn flipped_byte_in_a_never_verifies() {
    let (key, proof) = fixture();
    let mut bad = proof.clone();
    bad[5] ^= 0x01;
    assert_ne!(run(&key, &bad, &[scalar(35)]), Ok(true));
}

#[test]
fn flipped_byte_in_c_never_verifies() {
    let (key, proof) = fixture();
    let mut bad = proof.clone();
    bad[300] ^= 0x80;
    assert_ne!(run(&key, &bad, &[scalar(35)]), Ok(true));
}

#[test]
fn sign_flag_of_a_is_decode_error() {
    let (key, proof) = fixture();
    let mut bad = proof.clone();
    bad[95] |= 0x80;
    assert_eq!(run(&key, &bad, &[scalar(35)]), Err(VerifyError::Decode));
}

#[test]
fn sign_flag_of_b_or_c_is_decode_error() {
    let (key, proof) = fixture();
    let mut bad_b = proof.clone();
    bad_b[287] |= 0x80;
    assert_eq!(run(&key, &bad_b, &[scalar(35)]), Err(VerifyError::Decode));
    let mut bad_c = proof.clone();
    bad_c[383] |= 0x80;
    assert_eq!(run(&key, &bad_c, &[scalar(35)]), Err(VerifyError::Decode));
}

#[test]
fn sign_flag_in_key_is_decode_error() {
    let (mut key, proof) = fixture();
    key[95] |= 0x80;
    assert_eq!(run(&key, &proof, &[scalar(35)]), Err(VerifyError::Decode));
}

#[test]
fn key_and_proof_round_trip() {
    let (key, proof) = fixture();
    let vk = decode_key(&key).unwrap();
    assert_eq!(vk.gamma_abc_g1.len(), 2);
    assert_eq!(&key[672..680], &[2, 0, 0, 0, 0, 0, 0, 0]);
    assert_eq!(encode_key(&vk), key);
    let p = decode_proof(&proof).unwrap();
    assert_eq!(encode_proof(&p), proof);
    assert_eq!(p.a.len(), 96);
    assert_eq!(p.b.len(), 192);
}

#[test]
fn aggregate_is_the_linear_combination() {
    let mut rng = ark_std::test_rng();
    let params = generate_random_parameters::<Bls12_377, _, _>(Cubic { w: 3 }, &mut rng).unwrap();
    let vk = decode_key(&ser(&params.vk)).unwrap();
    let prep = prepare_vk(&vk);
    let gabc = &params.vk.gamma_abc_g1;
    let expected = (gabc[0].into_projective() + gabc[1].mul(Fr::from(35u64).into_repr())).into_affine();
    assert_eq!(aggregate_inputs(&prep, &[scalar(35)]), Ok(ser(&expected)));
    assert_ne!(ser(&expected), ser(&gabc[0]));
    assert_eq!(aggregate_inputs(&prep, &[]), Err(VerifyError::MalformedKey));
}

#[test]
fn prepared_key_values() {
    let mut rng = ark_std::test_rng();
    let params = generate_random_parameters::<Bls12_377, _, _>(Cubic { w: 3 }, &mut rng).unwrap();
    let prep = prepare_vk(&decode_key(&ser(&params.vk)).unwrap());
    let k = &params.vk;
    assert_eq!(prep.e_alpha_beta, ser(&Bls12_377::pairing(k.alpha_g1, k.beta_g2)));
    assert_eq!(prep.gamma_neg, ser(&k.gamma_g2.neg()));
    assert_eq!(prep.delta_neg, ser(&k.delta_g2.neg()));
    assert_ne!(prep.gamma_neg, ser(&k.gamma_g2));
}

#[test]
fn verify_on_decoded_values() {
    let (key, proof) = fixture();
    let prep = prepare_vk(&decode_key(&key).unwrap());
    assert_eq!(verify(decode_proof(&proof).unwrap(), prep, &[scalar(35)]), Ok(true));
}

#[test]
fn verify_eq_multiplies_and_compares() {
    let g1 = G1Affine::prime_subgroup_generator();
    let g2 = G2Affine::prime_subgroup_generator();
    let e = Bls12_377::pairing(g1, g2);
    let e_neg = Bls12_377::pairing(g1, g2.neg());
    assert!(verify_eq(&ser(&e), &ser(&e_neg), &ser(&e), &ser(&e)));
    let two = Bls12_377::pairing(g1.mul(Fr::from(2u64).into_repr()).into_affine(), g2);
    assert!(!verify_eq(&ser(&e), &ser(&e_neg), &ser(&e), &ser(&two)));
    let one = <Bls12_377 as PairingEngine>::Fqk::one();
    assert!(verify_eq(&ser(&e), &ser(&e_neg), &ser(&one), &ser(&one)));
}
