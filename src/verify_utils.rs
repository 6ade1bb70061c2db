//! The Groth16 verification equation.
use crate::curve::{
    g1_add, g1_add_of, g1_point, g1_mul, g1_mul_of, g2_neg, g2_neg_of, gt_mul, gt_mul_of, gt_valid, is_fr,
    is_g1, is_g2, pairing, pairing_of, GT_SIZE,
};
use crate::types::{views, PreparedVK, Proof, VerifyError, VerifyingKey};
use vstd::prelude::*;

verus! {

/// `gamma_abc[0] + Σ inputs[i] · gamma_abc[i + 1]`, summed left to right.
pub open spec fn aggregate(gamma_abc: Seq<Seq<u8>>, inputs: Seq<Seq<u8>>) -> Seq<u8>
    decreases inputs.len(),
{
    if inputs.len() == 0 {
        gamma_abc[0]
    } else {
        g1_add_of(
            aggregate(gamma_abc, inputs.drop_last()),
            g1_mul_of(gamma_abc[inputs.len() as int], inputs.last()),
        )
    }
}

/// `e(a, b) · e(l, -gamma) · e(c, -delta) == e(alpha, beta)`.
pub open spec fn pairing_check(
    a: Seq<u8>,
    b: Seq<u8>,
    c: Seq<u8>,
    l: Seq<u8>,
    alpha: Seq<u8>,
    beta: Seq<u8>,
    gamma: Seq<u8>,
    delta: Seq<u8>,
) -> bool {
    gt_mul_of(
        gt_mul_of(pairing_of(a, b), pairing_of(l, g2_neg_of(gamma))),
        pairing_of(c, g2_neg_of(delta)),
    ) == pairing_of(alpha, beta)
}

/// The Groth16 verdict on `proof` against `vk` for the public inputs `inputs`.
pub open spec fn accepts(proof: &Proof, vk: &VerifyingKey, inputs: Seq<Seq<u8>>) -> bool {
    pairing_check(
        proof.a@,
        proof.b@,
        proof.c@,
        aggregate(vk.gamma_abc(), inputs),
        vk.alpha_g1@,
        vk.beta_g2@,
        vk.gamma_g2@,
        vk.delta_g2@,
    )
}

/// Every element encodes a scalar.
pub open spec fn all_scalars(inputs: Seq<Seq<u8>>) -> bool {
    forall|i: int| 0 <= i < inputs.len() ==> #[trigger] is_fr(inputs[i])
}

/// Folds the public inputs into one G1 point:
/// `gamma_abc_g1[0] + Σ pub_inputs[i] · gamma_abc_g1[i + 1]`.
pub fn aggregate_inputs(prep_vk: &PreparedVK, pub_inputs: &[Vec<u8>]) -> (r: Result<
    Vec<u8>,
    VerifyError,
>)
    requires
        prep_vk.vk.wf(),
        all_scalars(views(pub_inputs@)),
    ensures
        r is Err <==> pub_inputs@.len() + 1 != prep_vk.vk.gamma_abc().len(),
        r is Err ==> r->Err_0 == VerifyError::MalformedKey,
        r is Ok ==> r->Ok_0@ == aggregate(prep_vk.vk.gamma_abc(), views(pub_inputs@)),
        r is Ok ==> is_g1(r->Ok_0@),
{
    let points = &prep_vk.vk.gamma_abc_g1;
    if pub_inputs.len() >= points.len() || pub_inputs.len() + 1 != points.len() {
        return Err(VerifyError::MalformedKey);
    }
    let ghost gabc = prep_vk.vk.gamma_abc();
    let ghost ins = views(pub_inputs@);
    assert(gabc.len() == points@.len());
    assert(ins.len() == pub_inputs@.len());
    assert(g1_point(gabc[0]));
    let mut g_ic = crate::types::copy_bytes(&points[0]);
    let mut i: usize = 0;
    while i < pub_inputs.len()
        invariant
            i <= pub_inputs@.len(),
            pub_inputs@.len() + 1 == points@.len(),
            gabc == prep_vk.vk.gamma_abc(),
            ins == views(pub_inputs@),
            points@ == prep_vk.vk.gamma_abc_g1@,
            gabc.len() == points@.len(),
            ins.len() == pub_inputs@.len(),
            prep_vk.vk.wf(),
            all_scalars(ins),
            g_ic@ == aggregate(gabc, ins.subrange(0, i as int)),
            is_g1(g_ic@),
        decreases pub_inputs@.len() - i,
    {
        assert(gabc[i + 1] == points@[i + 1]@);
        assert(ins[i as int] == pub_inputs@[i as int]@);
        assert(g1_point(gabc[i + 1]));
        assert(is_fr(ins[i as int]));
        let term = g1_mul(points[i + 1].as_slice(), pub_inputs[i].as_slice());
        g_ic = g1_add(g_ic.as_slice(), term.as_slice());
        assert(ins.subrange(0, i + 1).drop_last() =~= ins.subrange(0, i as int));
        assert(ins.subrange(0, i + 1).last() == ins[i as int]);
        i = i + 1;
    }
    assert(ins.subrange(0, i as int) =~= ins);
    Ok(g_ic)
}

/// Computes the values of `vk` that every check against it reuses.
pub fn prepare_vk(vk: &VerifyingKey) -> (r: PreparedVK)
    requires
        vk.wf(),
    ensures
        r.wf(),
        r.vk.same_as(vk),
{
    let e_alpha_beta = pairing(vk.alpha_g1.as_slice(), vk.beta_g2.as_slice());
    let gamma_neg = g2_neg(vk.gamma_g2.as_slice());
    let delta_neg = g2_neg(vk.delta_g2.as_slice());
    PreparedVK { vk: vk.duplicate(), e_alpha_beta, gamma_neg, delta_neg }
}

/// The Groth16 equation on the three pairings and the precomputed
/// `e(alpha, beta)`: `e_a_b · e_l_ngamma · e_c_ndelta == e_alpha_beta`.
/// Encodings in the target field are canonical, so equal elements have equal
/// bytes.
pub fn verify_eq(
    e_a_b: &[u8],
    e_l_ngamma: &[u8],
    e_c_ndelta: &[u8],
    e_alpha_beta: &[u8],
) -> (r: bool)
    requires
        e_a_b@.len() == GT_SIZE && gt_valid(e_a_b@),
        e_l_ngamma@.len() == GT_SIZE && gt_valid(e_l_ngamma@),
        e_c_ndelta@.len() == GT_SIZE && gt_valid(e_c_ndelta@),
    ensures
        r == (gt_mul_of(gt_mul_of(e_a_b@, e_l_ngamma@), e_c_ndelta@) == e_alpha_beta@),
{
    let lhs = gt_mul(e_a_b, e_l_ngamma);
    let lhs = gt_mul(lhs.as_slice(), e_c_ndelta);
    bytes_eq(lhs.as_slice(), e_alpha_beta)
}

/// Byte-for-byte equality.
pub fn bytes_eq(x: &[u8], y: &[u8]) -> (r: bool)
    ensures
        r == (x@ == y@),
{
    if x.len() != y.len() {
        return false;
    }
    let mut i: usize = 0;
    while i < x.len()
        invariant
            i <= x@.len(),
            x@.len() == y@.len(),
            x@.subrange(0, i as int) == y@.subrange(0, i as int),
        decreases x@.len() - i,
    {
        if x[i] != y[i] {
            assert(x@[i as int] != y@[i as int]);
            return false;
        }
        assert(x@.subrange(0, i + 1) =~= x@.subrange(0, i as int).push(x@[i as int]));
        assert(y@.subrange(0, i + 1) =~= y@.subrange(0, i as int).push(y@[i as int]));
        i = i + 1;
    }
    assert(x@.subrange(0, i as int) =~= x@);
    assert(y@.subrange(0, i as int) =~= y@);
    true
}

/// Computes the pairings and checks the Groth16 equation for `proof` against
/// the prepared key and the public inputs. `Ok(false)` is a proof that does
/// not verify; an error comes only from a key whose size does not fit the
/// inputs, before any pairing.
pub fn verify(proof: Proof, prep_vk: PreparedVK, pub_inputs: &[Vec<u8>]) -> (r: Result<
    bool,
    VerifyError,
>)
    requires
        proof.wf(),
        prep_vk.wf(),
        all_scalars(views(pub_inputs@)),
    ensures
        r is Err <==> pub_inputs@.len() + 1 != prep_vk.vk.gamma_abc().len(),
        r is Err ==> r->Err_0 == VerifyError::MalformedKey,
        r is Ok ==> r->Ok_0 == accepts(&proof, &prep_vk.vk, views(pub_inputs@)),
{
    let l = match aggregate_inputs(&prep_vk, pub_inputs) {
        Ok(l) => l,
        Err(e) => return Err(e),
    };
    let e_a_b = pairing(proof.a.as_slice(), proof.b.as_slice());
    let e_l_ngamma = pairing(l.as_slice(), prep_vk.gamma_neg.as_slice());
    let e_c_ndelta = pairing(proof.c.as_slice(), prep_vk.delta_neg.as_slice());
    Ok(
        verify_eq(
            e_a_b.as_slice(),
            e_l_ngamma.as_slice(),
            e_c_ndelta.as_slice(),
            prep_vk.e_alpha_beta.as_slice(),
        ),
    )
}

} // verus!
