//! Proofs written as decimal coordinates.
use crate::curve::{g1_from_decimal, g1_from_decimal_of, g2_from_decimal, g2_from_decimal_of};
use crate::types::Proof;
use vstd::prelude::*;

verus! {

/// Builds a proof from the decimal coordinates of its points: `a_b` and `c_b`
/// hold `x` and `y` of `A` and `C`; `b_b` holds the two components of `x` and
/// then of `y` of `B`. `None` where a coordinate is not a base-field element.
/// The points are taken as given; `decode_proof` of the encoding checks them.
pub fn build_proof(a_b: &[&str], b_b: ([&str; 2], [&str; 2]), c_b: &[&str]) -> (r: Option<Proof>)
    requires
        a_b@.len() >= 2,
        c_b@.len() >= 2,
    ensures
        r is Some <==> (g1_from_decimal_of(a_b@[0]@, a_b@[1]@) is Some && g2_from_decimal_of(
            b_b.0@[0]@,
            b_b.0@[1]@,
            b_b.1@[0]@,
            b_b.1@[1]@,
        ) is Some && g1_from_decimal_of(c_b@[0]@, c_b@[1]@) is Some),
        r is Some ==> g1_from_decimal_of(a_b@[0]@, a_b@[1]@) == Some(r->Some_0.a@),
        r is Some ==> g2_from_decimal_of(b_b.0@[0]@, b_b.0@[1]@, b_b.1@[0]@, b_b.1@[1]@) == Some(
            r->Some_0.b@,
        ),
        r is Some ==> g1_from_decimal_of(c_b@[0]@, c_b@[1]@) == Some(r->Some_0.c@),
{
    let a = g1_from_decimal(a_b[0], a_b[1]);
    let b = g2_from_decimal(b_b.0[0], b_b.0[1], b_b.1[0], b_b.1[1]);
    let c = g1_from_decimal(c_b[0], c_b[1]);
    match (a, b, c) {
        (Some(a), Some(b), Some(c)) => Some(Proof { a, b, c }),
        _ => None,
    }
}

} // verus!
