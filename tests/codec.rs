use ark_bls12_377::{Fr, G1Affine, G2Affine};
use ark_ec::AffineCurve;
use ark_ff::Zero;
use ark_serialize::CanonicalSerialize;
use groth16_verifier::codec::{decode_point_g1, decode_point_g2, decode_scalar, decode_inputs, decode_key};
use groth16_verifier::types::VerifyError;
use groth16_verifier::verify_utils::bytes_eq;

fn ser<T: CanonicalSerialize>(t: &T) -> Vec<u8> {
    let mut out = Vec::new();
    t.serialize_uncompressed(&mut out).unwrap();
    out
}

#[test]
fn generators_decode_to_their_bytes() {
    let g1 = ser(&G1Affine::prime_subgroup_generator());
    let g2 = ser(&G2Affine::prime_subgroup_generator());
    assert_eq!(g1.len(), 96);
    assert_eq!(g2.len(), 192);
    assert_eq!(decode_point_g1(&g1), Ok(g1.clone()));
    assert_eq!(decode_point_g2(&g2), Ok(g2.clone()));
}

#[test]
fn point_at_infinity_round_trips() {
    let zero = ser(&G1Affine::zero());
    assert_eq!(decode_point_g1(&zero), Ok(zero.clone()));
}

#[test]
fn g2_point_at_infinity_round_trips() {
    let zero = ser(&G2Affine::zero());
    assert_eq!(zero.len(), 192);
    assert_eq!(decode_point_g2(&zero), Ok(zero.clone()));
}

#[test]
fn infinity_flag_with_other_coordinates_is_refused() {
    let mut inf = ser(&G1Affine::zero());
    assert_eq!(inf[48], 1);
    assert_eq!(inf[95], 0x40);
    inf[0] = 5;
    assert_eq!(decode_point_g1(&inf), Err(VerifyError::Decode));
    let mut gen = ser(&G1Affine::prime_subgroup_generator());
    gen[95] |= 0x40;
    assert_eq!(decode_point_g1(&gen), Err(VerifyError::Decode));
}

#[test]
fn sign_flag_is_refused() {
    let mut g1 = ser(&G1Affine::prime_subgroup_generator());
    g1[95] |= 0x80;
    assert_eq!(decode_point_g1(&g1), Err(VerifyError::Decode));
    let mut g2 = ser(&G2Affine::prime_subgroup_generator());
    g2[191] |= 0x80;
    assert_eq!(decode_point_g2(&g2), Err(VerifyError::Decode));
}

#[test]
fn point_off_the_curve_is_refused() {
    assert_eq!(decode_point_g1(&[0u8; 96]), Err(VerifyError::Decode));
    let mut g1 = ser(&G1Affine::prime_subgroup_generator());
    g1[0] ^= 1;
    assert_eq!(decode_point_g1(&g1), Err(VerifyError::Decode));
}

#[test]
fn wrong_sizes_are_refused() {
    let g1 = ser(&G1Affine::prime_subgroup_generator());
    assert_eq!(decode_point_g1(&g1[..95]), Err(VerifyError::Decode));
    let mut longer = g1.clone();
    longer.push(0);
    assert_eq!(decode_point_g1(&longer), Err(VerifyError::Decode));
    assert_eq!(decode_point_g2(&g1), Err(VerifyError::Decode));
    assert_eq!(decode_key(&[0u8; 679]).is_err(), true);
}

#[test]
fn scalars_decode() {
    let s = ser(&Fr::from(35u64));
    assert_eq!(s.len(), 32);
    assert_eq!(s[0], 35);
    assert_eq!(decode_scalar(&s), Ok(s.clone()));
    assert_eq!(decode_scalar(&[0xffu8; 32]), Err(VerifyError::Decode));
    assert_eq!(decode_scalar(&s[..31]), Err(VerifyError::Decode));
    assert_eq!(decode_inputs(&[s.clone(), s.clone()]), Ok(vec![s.clone(), s.clone()]));
    assert_eq!(decode_inputs(&[s.clone(), vec![0xffu8; 32]]), Err(VerifyError::Decode));
    assert_eq!(decode_inputs(&[]), Ok(vec![]));
}

#[test]
fn byte_equality() {
    assert!(bytes_eq(&[1, 2, 3], &[1, 2, 3]));
    assert!(!bytes_eq(&[1, 2, 3], &[1, 2, 4]));
    assert!(!bytes_eq(&[1, 2], &[1, 2, 3]));
    assert!(bytes_eq(&[], &[]));
}
