//! The objects of the Groth16 protocol, each point held as its encoding.
use crate::curve::{g1_point, g2_neg_of, g2_point, is_g2, pairing_of};
use vstd::prelude::*;

verus! {

/// Why a verification call was refused before any pairing was computed.
#[derive(Clone, Copy, Debug, PartialEq, Eq, Structural)]
pub enum VerifyError {
    /// A byte buffer is truncated, too long, or does not encode a valid
    /// curve point or scalar.
    Decode,
    /// The digest of the key bytes differs from the pinned commitment.
    KeyMismatch,
    /// The key does not hold one more `gamma_abc_g1` point than there are
    /// public inputs.
    MalformedKey,
}

/// A proof in the Groth16 SNARK.
pub struct Proof {
    /// The `A` element in `G1`.
    pub a: Vec<u8>,
    /// The `B` element in `G2`.
    pub b: Vec<u8>,
    /// The `C` element in `G1`.
    pub c: Vec<u8>,
}

impl Proof {
    /// Each element is the canonical encoding of a point of its group.
    pub open spec fn wf(&self) -> bool {
        g1_point(self.a@) && g2_point(self.b@) && g1_point(self.c@)
    }
}

/// A verification key in the Groth16 SNARK.
pub struct VerifyingKey {
    /// `alpha · G`, with `G` the generator of G1.
    pub alpha_g1: Vec<u8>,
    /// `beta · H`, with `H` the generator of G2.
    pub beta_g2: Vec<u8>,
    /// `gamma · H`.
    pub gamma_g2: Vec<u8>,
    /// `delta · H`.
    pub delta_g2: Vec<u8>,
    /// One G1 point for the constant term and one for each public input.
    pub gamma_abc_g1: Vec<Vec<u8>>,
}

/// A copy of `b`.
pub fn copy_bytes(b: &Vec<u8>) -> (r: Vec<u8>)
    ensures
        r@ == b@,
{
    vstd::slice::slice_to_vec(b.as_slice())
}

/// The contents of a sequence of byte vectors.
pub open spec fn views(s: Seq<Vec<u8>>) -> Seq<Seq<u8>> {
    s.map_values(|v: Vec<u8>| v@)
}

impl VerifyingKey {
    /// The encodings of the `gamma_abc_g1` points.
    pub open spec fn gamma_abc(&self) -> Seq<Seq<u8>> {
        views(self.gamma_abc_g1@)
    }

    /// Every element is the canonical encoding of a point of its group.
    pub open spec fn wf(&self) -> bool {
        &&& g1_point(self.alpha_g1@)
        &&& g2_point(self.beta_g2@)
        &&& g2_point(self.gamma_g2@)
        &&& g2_point(self.delta_g2@)
        &&& forall|i: int|
            0 <= i < self.gamma_abc().len() ==> #[trigger] g1_point(self.gamma_abc()[i])
    }

    /// `self` and `o` hold the same encodings.
    pub open spec fn same_as(&self, o: &VerifyingKey) -> bool {
        &&& self.alpha_g1@ == o.alpha_g1@
        &&& self.beta_g2@ == o.beta_g2@
        &&& self.gamma_g2@ == o.gamma_g2@
        &&& self.delta_g2@ == o.delta_g2@
        &&& self.gamma_abc() == o.gamma_abc()
    }

    /// A copy of the key.
    pub fn duplicate(&self) -> (r: VerifyingKey)
        ensures
            r.same_as(self),
    {
        let mut points: Vec<Vec<u8>> = Vec::new();
        let mut i: usize = 0;
        while i < self.gamma_abc_g1.len()
            invariant
                i <= self.gamma_abc_g1.len(),
                points@.len() == i,
                views(points@) == self.gamma_abc().subrange(0, i as int),
            decreases self.gamma_abc_g1.len() - i,
        {
            let ghost before = points@;
            points.push(copy_bytes(&self.gamma_abc_g1[i]));
            assert forall|j: int| 0 <= j < i implies #[trigger] views(points@)[j] == self.gamma_abc()[j] by {
                assert(points@[j] == before[j]);
                assert(views(before)[j] == self.gamma_abc().subrange(0, i as int)[j]);
            }
            assert(views(points@) =~= self.gamma_abc().subrange(0, i + 1));
            i = i + 1;
        }
        assert(views(points@) =~= self.gamma_abc());
        VerifyingKey {
            alpha_g1: copy_bytes(&self.alpha_g1),
            beta_g2: copy_bytes(&self.beta_g2),
            gamma_g2: copy_bytes(&self.gamma_g2),
            delta_g2: copy_bytes(&self.delta_g2),
            gamma_abc_g1: points,
        }
    }
}

/// A verifying key with the values that every check against it reuses.
pub struct PreparedVK {
    /// The verifying key.
    pub vk: VerifyingKey,
    /// `e(alpha_g1, beta_g2)`.
    pub e_alpha_beta: Vec<u8>,
    /// `-gamma_g2`.
    pub gamma_neg: Vec<u8>,
    /// `-delta_g2`.
    pub delta_neg: Vec<u8>,
}

impl PreparedVK {
    /// The precomputed values are those of the key.
    pub open spec fn wf(&self) -> bool {
        &&& self.vk.wf()
        &&& self.e_alpha_beta@ == pairing_of(self.vk.alpha_g1@, self.vk.beta_g2@)
        &&& self.gamma_neg@ == g2_neg_of(self.vk.gamma_g2@)
        &&& self.delta_neg@ == g2_neg_of(self.vk.delta_g2@)
        &&& is_g2(self.gamma_neg@)
        &&& is_g2(self.delta_neg@)
    }
}

} // verus!
