//! The arithmetic of BLS12-377, provided by arkworks.
//!
//! Every value crosses this boundary as its canonical uncompressed encoding
//! (`ark_serialize`): a G1 point takes 96 bytes, a G2 point 192, a scalar of
//! the field `Fr` 32, and an element of the target field `Fq12` 576. The
//! results of the operations are named by the uninterpreted functions below;
//! the contracts say which of them a wrapper computes and that what it returns
//! is again a valid encoding.
use ark_bls12_377::{Bls12_377, Fq, Fq12, Fq2, Fr, G1Affine, G2Affine};
use ark_ec::{AffineCurve, PairingEngine, ProjectiveCurve};
use ark_ff::PrimeField;
use ark_serialize::{CanonicalDeserialize, CanonicalSerialize};
use core::ops::{AddAssign, MulAssign, Neg};
use core::str::FromStr;
use vstd::prelude::*;

verus! {

/// Bytes in the encoding of a G1 point.
pub const G1_SIZE: usize = 96;

/// Bytes in the encoding of a G2 point.
pub const G2_SIZE: usize = 192;

/// Bytes in the encoding of a scalar.
pub const FR_SIZE: usize = 32;

/// Bytes in the encoding of a target-field element.
pub const GT_SIZE: usize = 576;

/// `G1Affine::deserialize_uncompressed` accepts `b` and the point lies on the curve.
pub uninterp spec fn g1_valid(b: Seq<u8>) -> bool;

/// `G2Affine::deserialize_uncompressed` accepts `b` and the point lies on the curve.
pub uninterp spec fn g2_valid(b: Seq<u8>) -> bool;

/// `Fr::deserialize_uncompressed` accepts `b`.
pub uninterp spec fn fr_valid(b: Seq<u8>) -> bool;

/// `Fq12::deserialize_uncompressed` accepts `b`.
pub uninterp spec fn gt_valid(b: Seq<u8>) -> bool;

/// Encoding of `s · p` for the G1 point `p` and the scalar `s`.
pub uninterp spec fn g1_mul_of(p: Seq<u8>, s: Seq<u8>) -> Seq<u8>;

/// Encoding of `p + q` for G1 points.
pub uninterp spec fn g1_add_of(p: Seq<u8>, q: Seq<u8>) -> Seq<u8>;

/// Encoding of `-q` for a G2 point.
pub uninterp spec fn g2_neg_of(q: Seq<u8>) -> Seq<u8>;

/// Encoding of the pairing `e(p, q)`.
pub uninterp spec fn pairing_of(p: Seq<u8>, q: Seq<u8>) -> Seq<u8>;

/// Encoding of the product `x · y` in the target field.
pub uninterp spec fn gt_mul_of(x: Seq<u8>, y: Seq<u8>) -> Seq<u8>;

/// `b` encodes a point of the prime-order subgroup of G1.
pub open spec fn is_g1(b: Seq<u8>) -> bool {
    b.len() == G1_SIZE && g1_valid(b)
}

/// `b` encodes a point of the prime-order subgroup of G2.
pub open spec fn is_g2(b: Seq<u8>) -> bool {
    b.len() == G2_SIZE && g2_valid(b)
}

/// `b` encodes a scalar of `Fr`.
pub open spec fn is_fr(b: Seq<u8>) -> bool {
    b.len() == FR_SIZE && fr_valid(b)
}

/// `b` encodes an element of the target field.
pub open spec fn is_gt(b: Seq<u8>) -> bool {
    b.len() == GT_SIZE && gt_valid(b)
}

/// What `serialize_uncompressed` writes for the point at infinity of a group
/// whose encodings take `n` bytes: `x = 0`, `y = 1` (its first base-field
/// coefficient, which starts halfway), and the infinity flag, bit 6 of the
/// last byte.
pub open spec fn infinity_encoding(n: nat) -> Seq<u8> {
    Seq::new(n, |i: int| if i == n / 2 { 1u8 } else if i == n - 1 { 0x40u8 } else { 0u8 })
}

/// The flag bits of the encoding `b` are those that `serialize_uncompressed`
/// writes: the sign flag, bit 7 of the last byte, is clear, and where the
/// infinity flag, bit 6, is set the whole encoding is that of the point at
/// infinity. Decoding ignores the sign flag and the coordinates under the
/// infinity flag, so without this one point would have several encodings.
pub open spec fn canonical_point(b: Seq<u8>) -> bool {
    &&& b.len() >= 2
    &&& b.last() < 0x80
    &&& b.last() >= 0x40 ==> b == infinity_encoding(b.len())
}

/// `b` is the canonical encoding of a point of the prime-order subgroup of G1.
pub open spec fn g1_point(b: Seq<u8>) -> bool {
    is_g1(b) && canonical_point(b)
}

/// `b` is the canonical encoding of a point of the prime-order subgroup of G2.
pub open spec fn g2_point(b: Seq<u8>) -> bool {
    is_g2(b) && canonical_point(b)
}

/// Whether the flag bits of `b` are in canonical form.
pub fn is_canonical_point(b: &[u8]) -> (r: bool)
    ensures
        r == canonical_point(b@),
{
    let n = b.len();
    if n < 2 {
        return false;
    }
    let last = b[n - 1];
    assert(last == b@.last());
    if last >= 0x80 {
        return false;
    }
    if last < 0x40 {
        return true;
    }
    let ghost inf = infinity_encoding(n as nat);
    let mut i: usize = 0;
    while i < n
        invariant
            i <= n,
            n == b@.len(),
            n >= 2,
            0x40 <= b@.last() < 0x80,
            inf == infinity_encoding(n as nat),
            forall|j: int| 0 <= j < i ==> b@[j] == #[trigger] inf[j],
        decreases n - i,
    {
        let expected: u8 = if i == n / 2 {
            1
        } else if i == n - 1 {
            0x40
        } else {
            0
        };
        if b[i] != expected {
            assert(inf[i as int] == expected);
            assert(b@[i as int] != inf[i as int]);
            return false;
        }
        i = i + 1;
    }
    assert(b@ =~= inf);
    true
}

/// Relies on `G1Affine::deserialize_uncompressed` (field elements below the
/// modulus, valid flags, subgroup check) and `G1Affine::is_on_curve`.
#[verifier::external_body]
pub(crate) fn check_g1(b: &[u8]) -> (r: bool)
    ensures
        r == g1_valid(b@),
{
    match G1Affine::deserialize_uncompressed(b) {
        Ok(p) => p.is_on_curve(),
        Err(_) => false,
    }
}

/// Relies on `G2Affine::deserialize_uncompressed` (field elements below the
/// modulus, valid flags, subgroup check) and `G2Affine::is_on_curve`.
#[verifier::external_body]
pub(crate) fn check_g2(b: &[u8]) -> (r: bool)
    ensures
        r == g2_valid(b@),
{
    match G2Affine::deserialize_uncompressed(b) {
        Ok(p) => p.is_on_curve(),
        Err(_) => false,
    }
}

/// Relies on `Fr::deserialize_uncompressed`, which accepts exactly the
/// little-endian encodings of integers below the field modulus.
#[verifier::external_body]
pub(crate) fn check_fr(b: &[u8]) -> (r: bool)
    ensures
        r == fr_valid(b@),
{
    Fr::deserialize_uncompressed(b).is_ok()
}

/// Relies on `AffineCurve::mul` on G1 (scalar multiplication); the result is
/// re-encoded by `serialize_uncompressed`, which decodes again.
#[verifier::external_body]
pub(crate) fn g1_mul(p: &[u8], s: &[u8]) -> (r: Vec<u8>)
    requires
        is_g1(p@),
        is_fr(s@),
    ensures
        r@ == g1_mul_of(p@, s@),
        is_g1(r@),
{
    let p = G1Affine::deserialize_uncompressed(p).unwrap();
    let s = Fr::deserialize_uncompressed(s).unwrap();
    let mut out = Vec::new();
    p.mul(s.into_repr()).into_affine().serialize_uncompressed(&mut out).unwrap();
    out
}

/// Relies on `AddAssign` of G1 points in projective form.
#[verifier::external_body]
pub(crate) fn g1_add(p: &[u8], q: &[u8]) -> (r: Vec<u8>)
    requires
        is_g1(p@),
        is_g1(q@),
    ensures
        r@ == g1_add_of(p@, q@),
        is_g1(r@),
{
    let mut sum = G1Affine::deserialize_uncompressed(p).unwrap().into_projective();
    sum.add_assign(&G1Affine::deserialize_uncompressed(q).unwrap().into_projective());
    let mut out = Vec::new();
    sum.into_affine().serialize_uncompressed(&mut out).unwrap();
    out
}

/// Relies on `Neg` of a G2 point.
#[verifier::external_body]
pub(crate) fn g2_neg(q: &[u8]) -> (r: Vec<u8>)
    requires
        is_g2(q@),
    ensures
        r@ == g2_neg_of(q@),
        is_g2(r@),
{
    let q = G2Affine::deserialize_uncompressed(q).unwrap();
    let mut out = Vec::new();
    q.neg().serialize_uncompressed(&mut out).unwrap();
    out
}

/// Relies on `Bls12_377::pairing`.
#[verifier::external_body]
pub(crate) fn pairing(p: &[u8], q: &[u8]) -> (r: Vec<u8>)
    requires
        is_g1(p@),
        is_g2(q@),
    ensures
        r@ == pairing_of(p@, q@),
        r@.len() == GT_SIZE,
        gt_valid(r@),
{
    let p = G1Affine::deserialize_uncompressed(p).unwrap();
    let q = G2Affine::deserialize_uncompressed(q).unwrap();
    let mut out = Vec::new();
    Bls12_377::pairing(p, q).serialize_uncompressed(&mut out).unwrap();
    out
}

/// Relies on `MulAssign` in the target field `Fq12`.
#[verifier::external_body]
pub(crate) fn gt_mul(x: &[u8], y: &[u8]) -> (r: Vec<u8>)
    requires
        is_gt(x@),
        is_gt(y@),
    ensures
        r@ == gt_mul_of(x@, y@),
        r@.len() == GT_SIZE,
        gt_valid(r@),
{
    let mut x = Fq12::deserialize_uncompressed(x).unwrap();
    x.mul_assign(Fq12::deserialize_uncompressed(y).unwrap());
    let mut out = Vec::new();
    x.serialize_uncompressed(&mut out).unwrap();
    out
}

/// Encoding of the affine G1 point `(x, y)` with both coordinates written in
/// decimal (each taken modulo the base-field modulus), or `None` where one is
/// not a decimal numeral without leading zeros. The point is taken as given:
/// nothing checks that it is on the curve.
pub uninterp spec fn g1_from_decimal_of(x: Seq<char>, y: Seq<char>) -> Option<Seq<u8>>;

/// Encoding of the affine G2 point `(x0 + x1·u, y0 + y1·u)` with all four
/// coordinates written in decimal (each taken modulo the base-field modulus),
/// or `None` where one is not a decimal numeral without leading zeros.
/// Nothing checks that it is on the curve.
pub uninterp spec fn g2_from_decimal_of(
    x0: Seq<char>,
    x1: Seq<char>,
    y0: Seq<char>,
    y1: Seq<char>,
) -> Option<Seq<u8>>;

/// Relies on `Fq::from_str` (a decimal numeral without leading zeros, reduced
/// modulo the field modulus) and `G1Affine::new`.
#[verifier::external_body]
pub(crate) fn g1_from_decimal(x: &str, y: &str) -> (r: Option<Vec<u8>>)
    ensures
        r is Some <==> g1_from_decimal_of(x@, y@) is Some,
        r is Some ==> g1_from_decimal_of(x@, y@) == Some(r->Some_0@),
{
    match (Fq::from_str(x), Fq::from_str(y)) {
        (Ok(x), Ok(y)) => {
            let mut out = Vec::new();
            G1Affine::new(x, y, false).serialize_uncompressed(&mut out).unwrap();
            Some(out)
        },
        _ => None,
    }
}

/// Relies on `Fq::from_str` (a decimal numeral without leading zeros, reduced
/// modulo the field modulus), `Fq2::new` and `G2Affine::new`.
#[verifier::external_body]
pub(crate) fn g2_from_decimal(x0: &str, x1: &str, y0: &str, y1: &str) -> (r: Option<Vec<u8>>)
    ensures
        r is Some <==> g2_from_decimal_of(x0@, x1@, y0@, y1@) is Some,
        r is Some ==> g2_from_decimal_of(x0@, x1@, y0@, y1@) == Some(r->Some_0@),
{
    match (Fq::from_str(x0), Fq::from_str(x1), Fq::from_str(y0), Fq::from_str(y1)) {
        (Ok(a), Ok(b), Ok(c), Ok(d)) => {
            let mut out = Vec::new();
            G2Affine::new(Fq2::new(a, b), Fq2::new(c, d), false).serialize_uncompressed(&mut out).unwrap();
            Some(out)
        },
        _ => None,
    }
}

} // verus!
