//! The byte layout of proofs, verifying keys and public inputs.
//!
//! A proof is `A ‖ B ‖ C`. A verifying key is
//! `alpha_g1 ‖ beta_g2 ‖ gamma_g2 ‖ delta_g2 ‖ n ‖ gamma_abc_g1[0] ‖ … ‖ gamma_abc_g1[n - 1]`
//! where `n` is an unsigned 64-bit little-endian count. Points take their
//! fixed-size uncompressed encodings, and only in canonical form (no sign
//! flag; the infinity flag only on the encoding of the point at infinity), so
//! that each point has one encoding; a buffer that is shorter or longer than
//! its layout asks is refused.
use crate::curve::{
    check_fr, check_g1, check_g2, g1_point, g2_point, is_canonical_point, is_fr, FR_SIZE, G1_SIZE,
    G2_SIZE,
};
use crate::types::{copy_bytes, views, Proof, VerifyError, VerifyingKey};
use crate::verify_utils::all_scalars;
use vstd::arithmetic::div_mod::lemma_fundamental_div_mod_converse;
use vstd::prelude::*;
use vstd::slice::{slice_subrange, slice_to_vec};

verus! {

/// Bytes in an encoded proof.
pub const PROOF_SIZE: usize = 384;

/// Where the point count of an encoded key starts.
pub const KEY_COUNT_AT: usize = 672;

/// Bytes in an encoded key before its first `gamma_abc_g1` point.
pub const KEY_HEADER: usize = 680;

/// The number that the little-endian bytes `s` write.
pub open spec fn le_value(s: Seq<u8>) -> nat
    decreases s.len(),
{
    if s.len() == 0 {
        0
    } else {
        s[0] as nat + 256 * le_value(s.drop_first())
    }
}

/// The `k` low bytes of `n`, least significant first.
pub open spec fn le_bytes(n: nat, k: nat) -> Seq<u8>
    decreases k,
{
    if k == 0 {
        Seq::empty()
    } else {
        seq![(n % 256) as u8] + le_bytes(n / 256, (k - 1) as nat)
    }
}

/// The byte sequences of `s` one after the other.
pub open spec fn concat(s: Seq<Seq<u8>>) -> Seq<u8>
    decreases s.len(),
{
    if s.len() == 0 {
        Seq::empty()
    } else {
        concat(s.drop_last()) + s.last()
    }
}

/// The encoding of a proof.
pub open spec fn proof_bytes(p: &Proof) -> Seq<u8> {
    p.a@ + p.b@ + p.c@
}

/// `b` is the encoding of a proof.
pub open spec fn proof_decodes(b: Seq<u8>) -> bool {
    &&& b.len() == PROOF_SIZE
    &&& g1_point(b.subrange(0, 96))
    &&& g2_point(b.subrange(96, 288))
    &&& g1_point(b.subrange(288, 384))
}

/// The encoding of a verifying key.
pub open spec fn key_bytes(vk: &VerifyingKey) -> Seq<u8> {
    vk.alpha_g1@ + vk.beta_g2@ + vk.gamma_g2@ + vk.delta_g2@ + le_bytes(vk.gamma_abc().len(), 8)
        + concat(vk.gamma_abc())
}

/// The `i`-th `gamma_abc_g1` point in the key encoding `b`.
pub open spec fn key_point(b: Seq<u8>, i: int) -> Seq<u8> {
    b.subrange(KEY_HEADER + 96 * i, KEY_HEADER + 96 * i + 96)
}

/// The point count written in the key encoding `b`.
pub open spec fn key_count(b: Seq<u8>) -> nat {
    le_value(b.subrange(KEY_COUNT_AT as int, KEY_HEADER as int))
}

/// The `gamma_abc_g1` points of the key encoding `b`.
pub open spec fn key_points(b: Seq<u8>) -> Seq<Seq<u8>> {
    Seq::new(key_count(b), |i: int| key_point(b, i))
}

/// The points of `vk` are those that the key encoding `b` holds.
pub open spec fn key_parts(vk: &VerifyingKey, b: Seq<u8>) -> bool {
    &&& vk.alpha_g1@ == b.subrange(0, 96)
    &&& vk.beta_g2@ == b.subrange(96, 288)
    &&& vk.gamma_g2@ == b.subrange(288, 480)
    &&& vk.delta_g2@ == b.subrange(480, 672)
    &&& vk.gamma_abc() == key_points(b)
}

/// `b` is the encoding of a verifying key.
pub open spec fn key_decodes(b: Seq<u8>) -> bool {
    &&& b.len() >= KEY_HEADER
    &&& g1_point(b.subrange(0, 96))
    &&& g2_point(b.subrange(96, 288))
    &&& g2_point(b.subrange(288, 480))
    &&& g2_point(b.subrange(480, 672))
    &&& b.len() - KEY_HEADER == 96 * key_count(b)
    &&& forall|i: int| 0 <= i < key_count(b) ==> g1_point(#[trigger] key_point(b, i))
}

/// `256` to the power `k`.
pub open spec fn pow256(k: nat) -> nat
    decreases k,
{
    if k == 0 {
        1
    } else {
        256 * pow256((k - 1) as nat)
    }
}

/// Writing a number below `256^k` in `k` bytes and reading them back gives the number.
pub proof fn lemma_le_round_trip(n: nat, k: nat)
    requires
        n < pow256(k),
    ensures
        le_bytes(n, k).len() == k,
        le_value(le_bytes(n, k)) == n,
    decreases k,
{
    if k > 0 {
        let q = n / 256;
        let r = n % 256;
        assert(n == 256 * q + r && 0 <= r < 256);
        assert(q < pow256((k - 1) as nat)) by (nonlinear_arith)
            requires
                n == 256 * q + r,
                0 <= r,
                n < 256 * pow256((k - 1) as nat),
        ;
        lemma_le_round_trip(q, (k - 1) as nat);
        assert(le_bytes(n, k).drop_first() =~= le_bytes(q, (k - 1) as nat));
    }
}

/// Reading `k` bytes and writing the number back in `k` bytes gives the bytes.
pub proof fn lemma_le_bytes_of_value(s: Seq<u8>)
    ensures
        le_bytes(le_value(s), s.len()) == s,
    decreases s.len(),
{
    if s.len() > 0 {
        let t = le_value(s.drop_first());
        lemma_fundamental_div_mod_converse(le_value(s) as int, 256, t as int, s[0] as int);
        lemma_le_bytes_of_value(s.drop_first());
        assert(le_bytes(le_value(s), s.len()) =~= s);
    }
}

/// The byte sequences of `s`, each of `G1_SIZE` bytes, stand one after the
/// other in `concat(s)`.
pub proof fn lemma_concat_points(s: Seq<Seq<u8>>)
    requires
        forall|i: int| 0 <= i < s.len() ==> (#[trigger] s[i]).len() == 96,
    ensures
        concat(s).len() == 96 * s.len(),
        forall|i: int|
            0 <= i < s.len() ==> concat(s).subrange(96 * i, 96 * i + 96) == #[trigger] s[i],
    decreases s.len(),
{
    if s.len() > 0 {
        let init = s.drop_last();
        assert forall|i: int| 0 <= i < init.len() implies (#[trigger] init[i]).len() == 96 by {
            assert(init[i] == s[i]);
        }
        lemma_concat_points(init);
        assert forall|i: int| 0 <= i < s.len() implies concat(s).subrange(96 * i, 96 * i + 96)
            == #[trigger] s[i] by {
            if i < s.len() - 1 {
                assert(init[i] == s[i]);
                assert(concat(s).subrange(96 * i, 96 * i + 96) =~= concat(init).subrange(
                    96 * i,
                    96 * i + 96,
                ));
            } else {
                assert(concat(s).subrange(96 * i, 96 * i + 96) =~= s.last());
            }
        }
    }
}

/// Reads a little-endian `u64` from the eight bytes of `b` at `at`.
fn read_u64_le(b: &[u8], at: usize) -> (r: u64)
    requires
        at + 8 <= b@.len(),
    ensures
        r as nat == le_value(b@.subrange(at as int, at + 8)),
{
    let len = b.len();
    let mut acc: u64 = 0;
    let mut k: usize = 8;
    while k > 0
        invariant
            k <= 8,
            at + 8 <= b@.len(),
            len == b@.len(),
            acc as nat == le_value(b@.subrange(at + k, at + 8)),
            (acc as nat) < pow256((8 - k) as nat),
        decreases k,
    {
        k = k - 1;
        let ghost s = b@.subrange(at + k, at + 8);
        assert(s.drop_first() =~= b@.subrange(at + k + 1, at + 8));
        let ghost p = pow256((8 - k - 1) as nat);
        assert(pow256((8 - k) as nat) == 256 * p);
        assert(p <= pow256(7)) by {
            lemma_pow256_mono((8 - k - 1) as nat, 7);
        }
        assert(pow256(7) == 0x100000000000000) by {
            reveal_with_fuel(pow256, 8);
        }
        assert(acc * 256 + b[at + k] < 256 * p) by (nonlinear_arith)
            requires
                acc < p,
                b[at + k] < 256,
        ;
        acc = acc * 256 + b[at + k] as u64;
    }
    acc
}

proof fn lemma_pow256_mono(j: nat, k: nat)
    requires
        j <= k,
    ensures
        pow256(j) <= pow256(k),
    decreases k,
{
    if j < k {
        lemma_pow256_mono(j, (k - 1) as nat);
    }
}

/// Appends the eight little-endian bytes of `n` to `out`.
fn push_u64_le(out: &mut Vec<u8>, n: u64)
    ensures
        final(out)@ == old(out)@ + le_bytes(n as nat, 8),
{
    let mut m: u64 = n;
    let mut k: usize = 0;
    while k < 8
        invariant
            k <= 8,
            out@ + le_bytes(m as nat, (8 - k) as nat) == old(out)@ + le_bytes(n as nat, 8),
        decreases 8 - k,
    {
        let ghost before = out@;
        assert(le_bytes(m as nat, (8 - k) as nat) =~= seq![(m % 256) as u8] + le_bytes(
            (m / 256) as nat,
            (8 - k - 1) as nat,
        ));
        out.push((m % 256) as u8);
        assert(out@ =~= before + seq![(m % 256) as u8]);
        m = m / 256;
        k = k + 1;
    }
    assert(le_bytes(m as nat, 0) =~= Seq::<u8>::empty());
    assert(out@ =~= out@ + le_bytes(m as nat, 0));
}

/// Copies the bytes of `b` in `[start, end)`.
fn take(b: &[u8], start: usize, end: usize) -> (r: Vec<u8>)
    requires
        start <= end <= b@.len(),
    ensures
        r@ == b@.subrange(start as int, end as int),
{
    slice_to_vec(slice_subrange(b, start, end))
}

/// Decodes a G1 point of exactly `G1_SIZE` bytes in canonical form.
pub fn decode_point_g1(b: &[u8]) -> (r: Result<Vec<u8>, VerifyError>)
    ensures
        r is Ok <==> g1_point(b@),
        r is Ok ==> r->Ok_0@ == b@,
        r is Err ==> r->Err_0 == VerifyError::Decode,
{
    if b.len() != G1_SIZE || !is_canonical_point(b) || !check_g1(b) {
        return Err(VerifyError::Decode);
    }
    Ok(slice_to_vec(b))
}

/// Decodes a G2 point of exactly `G2_SIZE` bytes in canonical form.
pub fn decode_point_g2(b: &[u8]) -> (r: Result<Vec<u8>, VerifyError>)
    ensures
        r is Ok <==> g2_point(b@),
        r is Ok ==> r->Ok_0@ == b@,
        r is Err ==> r->Err_0 == VerifyError::Decode,
{
    if b.len() != G2_SIZE || !is_canonical_point(b) || !check_g2(b) {
        return Err(VerifyError::Decode);
    }
    Ok(slice_to_vec(b))
}

/// Decodes a scalar of exactly `FR_SIZE` bytes.
pub fn decode_scalar(b: &[u8]) -> (r: Result<Vec<u8>, VerifyError>)
    ensures
        r is Ok <==> is_fr(b@),
        r is Ok ==> r->Ok_0@ == b@,
        r is Err ==> r->Err_0 == VerifyError::Decode,
{
    if b.len() != FR_SIZE || !check_fr(b) {
        return Err(VerifyError::Decode);
    }
    Ok(slice_to_vec(b))
}

/// Decodes each public input as a scalar, in order.
pub fn decode_inputs(list: &[Vec<u8>]) -> (r: Result<Vec<Vec<u8>>, VerifyError>)
    ensures
        r is Ok <==> all_scalars(views(list@)),
        r is Ok ==> views(r->Ok_0@) == views(list@),
        r is Err ==> r->Err_0 == VerifyError::Decode,
{
    let mut out: Vec<Vec<u8>> = Vec::new();
    let mut i: usize = 0;
    while i < list.len()
        invariant
            i <= list@.len(),
            out@.len() == i,
            views(out@) == views(list@).subrange(0, i as int),
            all_scalars(views(list@).subrange(0, i as int)),
        decreases list@.len() - i,
    {
        assert(views(list@)[i as int] == list@[i as int]@);
        let s = match decode_scalar(list[i].as_slice()) {
            Ok(s) => s,
            Err(e) => {
                assert(!is_fr(views(list@)[i as int]));
                return Err(e);
            },
        };
        let ghost before = out@;
        out.push(s);
        assert forall|j: int| 0 <= j < i implies #[trigger] views(out@)[j] == views(list@)[j] by {
            assert(out@[j] == before[j]);
            assert(views(before)[j] == views(list@).subrange(0, i as int)[j]);
        }
        assert(views(out@) =~= views(list@).subrange(0, i + 1));
        assert(all_scalars(views(list@).subrange(0, i + 1))) by {
            assert forall|j: int| 0 <= j < i + 1 implies #[trigger] is_fr(
                views(list@).subrange(0, i + 1)[j],
            ) by {
                if j < i {
                    assert(views(list@).subrange(0, i + 1)[j] == views(list@).subrange(
                        0,
                        i as int,
                    )[j]);
                }
            }
        }
        i = i + 1;
    }
    assert(views(list@).subrange(0, i as int) =~= views(list@));
    Ok(out)
}

/// Decodes a proof; the buffer must hold exactly `A`, `B` and `C`.
pub fn decode_proof(bytes: &[u8]) -> (r: Result<Proof, VerifyError>)
    ensures
        r is Ok <==> proof_decodes(bytes@),
        r is Ok ==> r->Ok_0.wf() && proof_bytes(&r->Ok_0) == bytes@,
        r is Err ==> r->Err_0 == VerifyError::Decode,
{
    if bytes.len() != PROOF_SIZE {
        return Err(VerifyError::Decode);
    }
    let a = decode_point_g1(slice_subrange(bytes, 0, 96))?;
    let b = decode_point_g2(slice_subrange(bytes, 96, 288))?;
    let c = decode_point_g1(slice_subrange(bytes, 288, 384))?;
    let p = Proof { a, b, c };
    assert(proof_bytes(&p) =~= bytes@);
    Ok(p)
}

/// Encodes a proof as `A ‖ B ‖ C`.
pub fn encode_proof(p: &Proof) -> (r: Vec<u8>)
    ensures
        r@ == proof_bytes(p),
{
    let mut out = copy_bytes(&p.a);
    let mut b = copy_bytes(&p.b);
    let mut c = copy_bytes(&p.c);
    out.append(&mut b);
    out.append(&mut c);
    out
}

/// Decodes a verifying key; the buffer must hold exactly the points that its
/// count announces.
pub fn decode_key(bytes: &[u8]) -> (r: Result<VerifyingKey, VerifyError>)
    ensures
        r is Ok <==> key_decodes(bytes@),
        r is Ok ==> r->Ok_0.wf() && key_bytes(&r->Ok_0) == bytes@,
        r is Ok ==> key_parts(&r->Ok_0, bytes@),
        r is Err ==> r->Err_0 == VerifyError::Decode,
{
    let len = bytes.len();
    if len < KEY_HEADER {
        return Err(VerifyError::Decode);
    }
    let alpha_g1 = decode_point_g1(slice_subrange(bytes, 0, 96))?;
    let beta_g2 = decode_point_g2(slice_subrange(bytes, 96, 288))?;
    let gamma_g2 = decode_point_g2(slice_subrange(bytes, 288, 480))?;
    let delta_g2 = decode_point_g2(slice_subrange(bytes, 480, 672))?;
    let n = read_u64_le(bytes, KEY_COUNT_AT);
    let rest = len - KEY_HEADER;
    if (n as u128) * 96 != rest as u128 {
        return Err(VerifyError::Decode);
    }
    let count = rest / 96;
    let mut points: Vec<Vec<u8>> = Vec::new();
    let mut i: usize = 0;
    while i < count
        invariant
            i <= count,
            len == bytes@.len(),
            96 * count == len - KEY_HEADER,
            count == key_count(bytes@),
            points@.len() == i,
            concat(views(points@)) == bytes@.subrange(KEY_HEADER as int, KEY_HEADER + 96 * i),
            forall|j: int| 0 <= j < i ==> #[trigger] views(points@)[j] == key_point(bytes@, j),
            forall|j: int| 0 <= j < i ==> g1_point(#[trigger] key_point(bytes@, j)),
        decreases count - i,
    {
        let start = KEY_HEADER + 96 * i;
        let p = match decode_point_g1(slice_subrange(bytes, start, start + 96)) {
            Ok(p) => p,
            Err(e) => {
                assert(!g1_point(key_point(bytes@, i as int)));
                return Err(e);
            },
        };
        let ghost before = points@;
        let ghost pv = p@;
        assert(pv == key_point(bytes@, i as int));
        points.push(p);
        assert(points@[i as int]@ == pv);
        assert(views(points@).drop_last() =~= views(before));
        assert(bytes@.subrange(KEY_HEADER as int, KEY_HEADER + 96 * (i + 1)) =~= bytes@.subrange(
            KEY_HEADER as int,
            KEY_HEADER + 96 * i,
        ) + key_point(bytes@, i as int));
        assert forall|j: int| 0 <= j < i + 1 implies #[trigger] views(points@)[j] == key_point(
            bytes@,
            j,
        ) by {
            if j < i {
                assert(points@[j] == before[j]);
                assert(views(before)[j] == key_point(bytes@, j));
                assert(views(points@)[j] == views(before)[j]);
            } else {
                assert(views(points@)[j] == points@[j]@);
            }
        }
        i = i + 1;
    }
    let vk = VerifyingKey { alpha_g1, beta_g2, gamma_g2, delta_g2, gamma_abc_g1: points };
    proof {
        assert forall|j: int| 0 <= j < vk.gamma_abc().len() implies #[trigger] g1_point(
            vk.gamma_abc()[j],
        ) by {
            assert(g1_point(key_point(bytes@, j)));
        }
        lemma_le_bytes_of_value(bytes@.subrange(KEY_COUNT_AT as int, KEY_HEADER as int));
        assert(bytes@.subrange(KEY_HEADER as int, KEY_HEADER + 96 * i) =~= bytes@.subrange(
            KEY_HEADER as int,
            len as int,
        ));
        assert(key_bytes(&vk) =~= bytes@);
        assert(vk.gamma_abc() =~= key_points(bytes@));
    }
    Ok(vk)
}

/// Encodes a verifying key: its four fixed points, the count of its
/// `gamma_abc_g1` points, then those points.
pub fn encode_key(vk: &VerifyingKey) -> (r: Vec<u8>)
    ensures
        r@ == key_bytes(vk),
{
    let mut out = copy_bytes(&vk.alpha_g1);
    let mut beta = copy_bytes(&vk.beta_g2);
    let mut gamma = copy_bytes(&vk.gamma_g2);
    let mut delta = copy_bytes(&vk.delta_g2);
    out.append(&mut beta);
    out.append(&mut gamma);
    out.append(&mut delta);
    let n = vk.gamma_abc_g1.len();
    push_u64_le(&mut out, n as u64);
    let ghost head = out@;
    let mut i: usize = 0;
    while i < n
        invariant
            i <= n,
            n == vk.gamma_abc().len(),
            out@ == head + concat(vk.gamma_abc().subrange(0, i as int)),
        decreases n - i,
    {
        let mut p = copy_bytes(&vk.gamma_abc_g1[i]);
        out.append(&mut p);
        assert(vk.gamma_abc().subrange(0, i + 1).drop_last() =~= vk.gamma_abc().subrange(
            0,
            i as int,
        ));
        assert(out@ =~= head + concat(vk.gamma_abc().subrange(0, i + 1)));
        i = i + 1;
    }
    assert(vk.gamma_abc().subrange(0, i as int) =~= vk.gamma_abc());
    assert(out@ =~= key_bytes(vk));
    out
}

/// Round trip of proofs: the encoding of a well-formed proof decodes, and no
/// other well-formed proof has the same encoding.
pub proof fn lemma_proof_round_trip(p: &Proof, q: &Proof)
    requires
        p.wf(),
        q.wf(),
    ensures
        proof_decodes(proof_bytes(p)),
        proof_bytes(p) == proof_bytes(q) ==> p.a@ == q.a@ && p.b@ == q.b@ && p.c@ == q.c@,
{
    let b = proof_bytes(p);
    assert(b.subrange(0, 96) =~= p.a@);
    assert(b.subrange(96, 288) =~= p.b@);
    assert(b.subrange(288, 384) =~= p.c@);
    if proof_bytes(p) == proof_bytes(q) {
        assert(b.subrange(0, 96) =~= q.a@);
        assert(b.subrange(96, 288) =~= q.b@);
        assert(b.subrange(288, 384) =~= q.c@);
    }
}

/// Round trip of keys: the encoding of a well-formed key decodes, and no
/// other well-formed key has the same encoding.
pub proof fn lemma_key_round_trip(vk: &VerifyingKey, other: &VerifyingKey)
    requires
        vk.wf(),
        other.wf(),
        vk.gamma_abc().len() < pow256(8),
        other.gamma_abc().len() < pow256(8),
    ensures
        key_decodes(key_bytes(vk)),
        key_bytes(vk) == key_bytes(other) ==> vk.same_as(other),
{
    let b = key_bytes(vk);
    let s = vk.gamma_abc();
    assert forall|i: int| 0 <= i < s.len() implies (#[trigger] s[i]).len() == 96 by {
        assert(g1_point(s[i]));
    }
    lemma_le_round_trip(s.len(), 8);
    lemma_concat_points(s);
    assert(b.subrange(0, 96) =~= vk.alpha_g1@);
    assert(b.subrange(96, 288) =~= vk.beta_g2@);
    assert(b.subrange(288, 480) =~= vk.gamma_g2@);
    assert(b.subrange(480, 672) =~= vk.delta_g2@);
    assert(b.subrange(KEY_COUNT_AT as int, KEY_HEADER as int) =~= le_bytes(s.len(), 8));
    assert forall|i: int| 0 <= i < key_count(b) implies g1_point(#[trigger] key_point(b, i)) by {
        assert(key_point(b, i) =~= concat(s).subrange(96 * i, 96 * i + 96));
        assert(g1_point(s[i]));
    }
    if b == key_bytes(other) {
        let t = other.gamma_abc();
        assert forall|i: int| 0 <= i < t.len() implies (#[trigger] t[i]).len() == 96 by {
            assert(g1_point(t[i]));
        }
        lemma_le_round_trip(t.len(), 8);
        lemma_concat_points(t);
        assert(b.subrange(0, 96) =~= other.alpha_g1@);
        assert(b.subrange(96, 288) =~= other.beta_g2@);
        assert(b.subrange(288, 480) =~= other.gamma_g2@);
        assert(b.subrange(480, 672) =~= other.delta_g2@);
        assert(b.subrange(KEY_COUNT_AT as int, KEY_HEADER as int) =~= le_bytes(t.len(), 8));
        assert forall|i: int| 0 <= i < s.len() implies s[i] == t[i] by {
            assert(key_point(b, i) =~= concat(s).subrange(96 * i, 96 * i + 96));
            assert(key_point(b, i) =~= concat(t).subrange(96 * i, 96 * i + 96));
        }
        assert(s =~= t);
    }
}

} // verus!
