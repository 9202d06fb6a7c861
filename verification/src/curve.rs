//! Adapter for the BLS12-381 arithmetic of `pairing_plus`.
//!
//! The scheme never computes field or curve arithmetic itself: every group
//! operation, pairing, hash-to-scalar derivation and canonical point
//! (de)serialization is a call into `pairing_plus`, made through the trusted
//! wrappers below. Group elements are opaque here; what a deterministic
//! outside call returns is given a name (an uninterpreted spec function),
//! and the contracts of the scheme speak of those names.
use vstd::prelude::*;

use crate::errors::PointproofsError;
use ff_zeroize::{Field, PrimeField};
use pairing_plus::bls12_381::{Fq12, Fr, FrRepr, G1Affine, G2Affine};
use pairing_plus::hash_to_field::{hash_to_field, ExpandMsgXmd};
use pairing_plus::serdes::SerDes;
use pairing_plus::{CurveAffine, CurveProjective};
use rand::rngs::OsRng;
use rand::RngCore;
use zeroize::Zeroize;

verus! {

#[verifier::external_type_specification]
#[verifier::external_body]
pub struct ExG1Affine(G1Affine);

#[verifier::external_type_specification]
#[verifier::external_body]
pub struct ExG2Affine(G2Affine);

#[verifier::external_type_specification]
#[verifier::external_body]
pub struct ExFq12(Fq12);

#[verifier::external_type_specification]
#[verifier::external_body]
pub struct ExFr(Fr);

/// The scalar multiple `s * p` in G1.
pub uninterp spec fn g1_mul_of(p: G1Affine, s: Fr) -> G1Affine;

/// The scalar multiple `s * p` in G2.
pub uninterp spec fn g2_mul_of(p: G2Affine, s: Fr) -> G2Affine;

/// The group sum `a + b` in G1.
pub uninterp spec fn g1_add_of(a: G1Affine, b: G1Affine) -> G1Affine;

/// The multi-scalar multiplication `ss[0]*ps[0] + ... + ss[k-1]*ps[k-1]` in G1.
pub uninterp spec fn g1_msm_of(ps: Seq<G1Affine>, ss: Seq<Fr>) -> G1Affine;

/// The multi-scalar multiplication `ss[0]*ps[0] + ... + ss[k-1]*ps[k-1]` in G2.
pub uninterp spec fn g2_msm_of(ps: Seq<G2Affine>, ss: Seq<Fr>) -> G2Affine;

/// The bilinear pairing `e(p, q)`.
pub uninterp spec fn pairing_of(p: G1Affine, q: G2Affine) -> Fq12;

/// The product of two target-group elements.
pub uninterp spec fn gt_mul_of(a: Fq12, b: Fq12) -> Fq12;

/// The target-group element `a` raised to the scalar `s`.
pub uninterp spec fn gt_pow_of(a: Fq12, s: Fr) -> Fq12;

/// The field difference `a - b` of two scalars.
pub uninterp spec fn fr_sub_of(a: Fr, b: Fr) -> Fr;

/// The scalar derived from the byte string `msg` under domain separator `dst`.
pub uninterp spec fn hash_fr_of(msg: Seq<u8>, dst: Seq<u8>) -> Fr;

/// Whether a G1 point is the group identity.
pub uninterp spec fn g1_is_ident_of(p: G1Affine) -> bool;

/// Whether a G1 point is the fixed group generator.
pub uninterp spec fn g1_is_gen_of(p: G1Affine) -> bool;

/// Whether a G2 point is the group identity.
pub uninterp spec fn g2_is_ident_of(p: G2Affine) -> bool;

/// Whether a G2 point is the fixed group generator.
pub uninterp spec fn g2_is_gen_of(p: G2Affine) -> bool;

/// The canonical 48-byte compressed encoding of a G1 point.
pub uninterp spec fn g1_ser_of(p: G1Affine) -> Seq<u8>;

/// The G1 point a 48-byte string decodes to, if it is a valid canonical
/// encoding of a prime-order-subgroup point.
pub uninterp spec fn g1_deser_of(b: Seq<u8>) -> Option<G1Affine>;

/// The canonical 96-byte compressed encoding of a G2 point.
pub uninterp spec fn g2_ser_of(p: G2Affine) -> Seq<u8>;

/// The G2 point a 96-byte string decodes to, if it is a valid canonical
/// encoding of a prime-order-subgroup point.
pub uninterp spec fn g2_deser_of(b: Seq<u8>) -> Option<G2Affine>;

/// The canonical 576-byte encoding of a target-group element.
pub uninterp spec fn gt_ser_of(a: Fq12) -> Seq<u8>;

/// The target-group element a 576-byte string decodes to, if every coordinate
/// is a canonically encoded base-field element.
pub uninterp spec fn gt_deser_of(b: Seq<u8>) -> Option<Fq12>;

/// The fixed G1 generator, characterized as the unique point the generator
/// test accepts.
pub open spec fn g1_gen_pt() -> G1Affine {
    choose|g: G1Affine| g1_is_gen_of(g)
}

/// The fixed G2 generator, characterized as the unique point the generator
/// test accepts.
pub open spec fn g2_gen_pt() -> G2Affine {
    choose|g: G2Affine| g2_is_gen_of(g)
}

/// Relies on `CurveAffine::one` for G1: it returns the fixed group generator,
/// the one point the generator test accepts.
#[verifier::external_body]
pub fn g1_generator() -> (r: G1Affine)
    ensures
        g1_is_gen_of(r),
        r == g1_gen_pt(),
{
    G1Affine::one()
}

/// Relies on `CurveAffine::one` for G2: it returns the fixed group generator,
/// the one point the generator test accepts.
#[verifier::external_body]
pub fn g2_generator() -> (r: G2Affine)
    ensures
        g2_is_gen_of(r),
        r == g2_gen_pt(),
{
    G2Affine::one()
}

/// Relies on `CurveAffine::is_zero` for G1: true exactly of the identity.
#[verifier::external_body]
pub fn g1_is_identity(p: &G1Affine) -> (r: bool)
    ensures
        r == g1_is_ident_of(*p),
{
    p.is_zero()
}

/// Relies on `PartialEq` for `G1Affine` and `CurveAffine::one`: the test is
/// true exactly of the fixed generator.
#[verifier::external_body]
pub fn g1_is_generator(p: &G1Affine) -> (r: bool)
    ensures
        r == g1_is_gen_of(*p),
        r ==> *p == g1_gen_pt(),
{
    *p == G1Affine::one()
}

/// Relies on `CurveAffine::is_zero` for G2: true exactly of the identity.
#[verifier::external_body]
pub fn g2_is_identity(p: &G2Affine) -> (r: bool)
    ensures
        r == g2_is_ident_of(*p),
{
    p.is_zero()
}

/// Relies on `PartialEq` for `G2Affine` and `CurveAffine::one`: the test is
/// true exactly of the fixed generator.
#[verifier::external_body]
pub fn g2_is_generator(p: &G2Affine) -> (r: bool)
    ensures
        r == g2_is_gen_of(*p),
        r ==> *p == g2_gen_pt(),
{
    *p == G2Affine::one()
}

/// Relies on `CurveAffine::mul` and `CurveProjective::into_affine` for G1.
#[verifier::external_body]
pub fn g1_mul(p: &G1Affine, s: &Fr) -> (r: G1Affine)
    ensures
        r == g1_mul_of(*p, *s),
{
    p.mul(*s).into_affine()
}

/// Relies on `CurveAffine::mul` and `CurveProjective::into_affine` for G2.
#[verifier::external_body]
pub fn g2_mul(p: &G2Affine, s: &Fr) -> (r: G2Affine)
    ensures
        r == g2_mul_of(*p, *s),
{
    p.mul(*s).into_affine()
}

/// Relies on `CurveProjective::add_assign_mixed`: the result is the group sum
/// of the two points.
#[verifier::external_body]
pub fn g1_add(a: &G1Affine, b: &G1Affine) -> (r: G1Affine)
    ensures
        r == g1_add_of(*a, *b),
{
    let mut t = a.into_projective();
    t.add_assign_mixed(b);
    t.into_affine()
}

/// Relies on `CurveAffine::sum_of_products` for G1: it computes
/// `scalars[0]*bases[0] + ... + scalars[k-1]*bases[k-1]`.
#[verifier::external_body]
pub fn g1_sum_of_products(bases: &[G1Affine], scalars: &[Fr]) -> (r: G1Affine)
    requires
        bases@.len() == scalars@.len(),
    ensures
        r == g1_msm_of(bases@, scalars@),
{
    let mut reprs: Vec<FrRepr> = Vec::with_capacity(scalars.len());
    for s in scalars.iter() {
        reprs.push(s.into_repr());
    }
    let mut refs: Vec<&[u64; 4]> = Vec::with_capacity(reprs.len());
    for r in reprs.iter() {
        refs.push(&r.0);
    }
    G1Affine::sum_of_products(bases, refs.as_slice()).into_affine()
}

/// Relies on `CurveAffine::sum_of_products` for G2: it computes
/// `scalars[0]*bases[0] + ... + scalars[k-1]*bases[k-1]`.
#[verifier::external_body]
pub fn g2_sum_of_products(bases: &[G2Affine], scalars: &[Fr]) -> (r: G2Affine)
    requires
        bases@.len() == scalars@.len(),
    ensures
        r == g2_msm_of(bases@, scalars@),
{
    let mut reprs: Vec<FrRepr> = Vec::with_capacity(scalars.len());
    for s in scalars.iter() {
        reprs.push(s.into_repr());
    }
    let mut refs: Vec<&[u64; 4]> = Vec::with_capacity(reprs.len());
    for r in reprs.iter() {
        refs.push(&r.0);
    }
    G2Affine::sum_of_products(bases, refs.as_slice()).into_affine()
}

/// The window-width-8 precomputation table of a point: 255 small multiples,
/// padded to 256 entries, in the layout `mul_precomp_256` expects.
pub uninterp spec fn g1_table256_of(p: G1Affine) -> Seq<G1Affine>;

/// The window-width-3 precomputation table of a point: its multiples by
/// `2^64`, `2^128` and `2^192`.
pub uninterp spec fn g1_table3_of(p: G1Affine) -> Seq<G1Affine>;

/// Relies on `CurveAffine::precomp_256` for G1: it fills a 256-entry buffer
/// with the fixed multiples of the point that the precomputed
/// multi-scalar-multiplication expects.
#[verifier::external_body]
pub fn g1_precomp_256(p: &G1Affine) -> (r: Vec<G1Affine>)
    ensures
        r@ == g1_table256_of(*p),
        r@.len() == 256,
{
    let mut pre = vec![G1Affine::zero(); 256];
    p.precomp_256(&mut pre);
    pre
}

/// Relies on `CurveAffine::sum_of_products_precomp_256` for G1: given the
/// table of each base in order, it computes the same sum
/// `scalars[0]*bases[0] + ... + scalars[k-1]*bases[k-1]` as the plain
/// multi-scalar multiplication.
#[verifier::external_body]
pub fn g1_msm_precomp_256(bases: &[G1Affine], scalars: &[Fr], pre: &[G1Affine]) -> (r: G1Affine)
    requires
        bases@.len() == scalars@.len(),
        pre@.len() == 256 * bases@.len(),
        forall|j: int|
            0 <= j < bases@.len() ==> pre@.subrange(256 * j, 256 * j + 256) == g1_table256_of(
                #[trigger] bases@[j],
            ),
    ensures
        r == g1_msm_of(bases@, scalars@),
{
    let mut reprs: Vec<FrRepr> = Vec::with_capacity(scalars.len());
    for s in scalars.iter() {
        reprs.push(s.into_repr());
    }
    let mut refs: Vec<&[u64; 4]> = Vec::with_capacity(reprs.len());
    for r in reprs.iter() {
        refs.push(&r.0);
    }
    G1Affine::sum_of_products_precomp_256(bases, refs.as_slice(), pre).into_affine()
}

/// Relies on `CurveAffine::precomp_3` for G1: it fills a 3-entry buffer with
/// the point's multiples by `2^64`, `2^128` and `2^192`.
#[verifier::external_body]
pub fn g1_precomp_3(p: &G1Affine) -> (r: Vec<G1Affine>)
    ensures
        r@ == g1_table3_of(*p),
        r@.len() == 3,
{
    let mut pre = vec![G1Affine::zero(); 3];
    p.precomp_3(&mut pre);
    pre
}

/// Relies on `CurveAffine::mul_precomp_3` for G1: given the point's
/// window-width-3 table, it computes the same scalar multiple as the plain
/// multiplication.
#[verifier::external_body]
pub fn g1_mul_precomp_3(p: &G1Affine, s: &Fr, pre: &[G1Affine]) -> (r: G1Affine)
    requires
        pre@.len() == 3,
        pre@ == g1_table3_of(*p),
    ensures
        r == g1_mul_of(*p, *s),
{
    p.mul_precomp_3(*s, pre).into_affine()
}

/// Relies on `Copy` for `G1Affine`: the returned value is the argument.
#[verifier::external_body]
pub fn g1_clone(p: &G1Affine) -> (r: G1Affine)
    ensures
        r == *p,
{
    *p
}

/// Relies on `Copy` for `G2Affine`: the returned value is the argument.
#[verifier::external_body]
pub fn g2_clone(p: &G2Affine) -> (r: G2Affine)
    ensures
        r == *p,
{
    *p
}

/// Relies on `Copy` for `Fq12`: the returned value is the argument.
#[verifier::external_body]
pub fn gt_clone(a: &Fq12) -> (r: Fq12)
    ensures
        r == *a,
{
    *a
}

/// Relies on `CurveAffine::pairing_with`: the bilinear pairing of the two
/// points.
#[verifier::external_body]
pub fn pairing(p: &G1Affine, q: &G2Affine) -> (r: Fq12)
    ensures
        r == pairing_of(*p, *q),
{
    p.pairing_with(q)
}

/// Relies on `PartialEq` for `Fq12`: field elements have one representation,
/// so the comparison decides value equality.
#[verifier::external_body]
pub fn gt_eq(a: &Fq12, b: &Fq12) -> (r: bool)
    ensures
        r == (*a == *b),
{
    *a == *b
}

/// Relies on `Field::mul_assign` for `Fq12`: the target-group operation is
/// multiplication in the field extension.
#[verifier::external_body]
pub fn gt_mul(a: &Fq12, b: &Fq12) -> (r: Fq12)
    ensures
        r == gt_mul_of(*a, *b),
{
    let mut t = *a;
    t.mul_assign(b);
    t
}

/// Relies on `Field::pow` for `Fq12`, with the scalar's canonical
/// representation as exponent.
#[verifier::external_body]
pub fn gt_pow(a: &Fq12, s: &Fr) -> (r: Fq12)
    ensures
        r == gt_pow_of(*a, *s),
{
    a.pow(s.into_repr())
}

/// Relies on `Field::sub_assign` for `Fr`.
#[verifier::external_body]
pub fn fr_sub(a: &Fr, b: &Fr) -> (r: Fr)
    ensures
        r == fr_sub_of(*a, *b),
{
    let mut t = *a;
    t.sub_assign(b);
    t
}

/// Relies on `pairing_plus::hash_to_field::hash_to_field` with SHA-256
/// expansion: a deterministic map from the message and domain separator to a
/// scalar. Asking for one element returns a vector of exactly one.
#[verifier::external_body]
pub fn hash_to_fr(msg: &[u8], dst: &[u8]) -> (r: Fr)
    ensures
        r == hash_fr_of(msg@, dst@),
{
    let mut v: Vec<Fr> = hash_to_field::<Fr, ExpandMsgXmd<sha2::Sha256>>(msg, dst, 1);
    v.remove(0)
}

/// Relies on `rand::rngs::OsRng`: fills a fresh buffer of the requested
/// length with bytes from the operating system's entropy source.
#[verifier::external_body]
pub fn os_random_bytes(len: usize) -> (r: Result<Vec<u8>, PointproofsError>)
    ensures
        r matches Ok(b) ==> b@.len() == len,
        r matches Err(e) ==> e == PointproofsError::RandomnessFailure,
{
    let mut rng = match OsRng::new() {
        Ok(rng) => rng,
        Err(_) => return Err(PointproofsError::RandomnessFailure),
    };
    let mut buf = vec![0u8; len];
    rng.fill_bytes(&mut buf);
    Ok(buf)
}

/// Relies on `Zeroize` for byte slices: every byte is overwritten with zero
/// and the length is unchanged.
#[verifier::external_body]
pub fn zeroize_buf(b: &mut Vec<u8>)
    ensures
        final(b)@.len() == old(b)@.len(),
        forall|i: int| 0 <= i < final(b)@.len() ==> final(b)@[i] == 0u8,
{
    b.as_mut_slice().zeroize()
}

/// Relies on `Zeroize` for `Fr`: overwrites the scalar's storage. Nothing is
/// claimed of the value left behind.
#[verifier::external_body]
pub fn fr_zeroize(s: &mut Fr)
{
    s.zeroize()
}

/// Relies on `SerDes::serialize` for `G1Affine` in compressed mode: it
/// appends the canonical 48-byte encoding, which decodes back to the same
/// point; writing to a byte vector cannot fail.
#[verifier::external_body]
pub fn g1_write(p: &G1Affine, out: &mut Vec<u8>)
    ensures
        final(out)@ == old(out)@ + g1_ser_of(*p),
        final(out)@.len() == old(out)@.len() + 48,
        g1_deser_of(final(out)@.skip(old(out)@.len() as int)) == Some(*p),
{
    p.serialize(out, true).unwrap()
}

/// Relies on `SerDes::deserialize` for `G1Affine` in compressed mode: it
/// consumes 48 bytes and accepts exactly the canonical encodings of
/// prime-order-subgroup points, returning the encoded point.
#[verifier::external_body]
pub fn g1_read(buf: &[u8], pos: usize) -> (r: Result<G1Affine, PointproofsError>)
    requires
        pos + 48 <= buf@.len(),
    ensures
        r matches Ok(p) ==> {
            &&& g1_deser_of(buf@.subrange(pos as int, pos as int + 48)) == Some(p)
            &&& buf@.subrange(pos as int, pos as int + 48) == g1_ser_of(p)
            &&& g1_ser_of(p).len() == 48
            &&& g1_deser_of(g1_ser_of(p)) == Some(p)
        },
        r matches Err(e) ==> {
            &&& g1_deser_of(buf@.subrange(pos as int, pos as int + 48)) is None
            &&& e == PointproofsError::MalformedParameters
        },
{
    let mut slice: &[u8] = &buf[pos..pos + 48];
    match G1Affine::deserialize(&mut slice, true) {
        Ok(p) => Ok(p),
        Err(_) => Err(PointproofsError::MalformedParameters),
    }
}

/// Relies on `SerDes::serialize` for `G2Affine` in compressed mode: it
/// appends the canonical 96-byte encoding, which decodes back to the same
/// point; writing to a byte vector cannot fail.
#[verifier::external_body]
pub fn g2_write(p: &G2Affine, out: &mut Vec<u8>)
    ensures
        final(out)@ == old(out)@ + g2_ser_of(*p),
        final(out)@.len() == old(out)@.len() + 96,
        g2_deser_of(final(out)@.skip(old(out)@.len() as int)) == Some(*p),
{
    p.serialize(out, true).unwrap()
}

/// Relies on `SerDes::deserialize` for `G2Affine` in compressed mode: it
/// consumes 96 bytes and accepts exactly the canonical encodings of
/// prime-order-subgroup points, returning the encoded point.
#[verifier::external_body]
pub fn g2_read(buf: &[u8], pos: usize) -> (r: Result<G2Affine, PointproofsError>)
    requires
        pos + 96 <= buf@.len(),
    ensures
        r matches Ok(p) ==> {
            &&& g2_deser_of(buf@.subrange(pos as int, pos as int + 96)) == Some(p)
            &&& buf@.subrange(pos as int, pos as int + 96) == g2_ser_of(p)
            &&& g2_ser_of(p).len() == 96
            &&& g2_deser_of(g2_ser_of(p)) == Some(p)
        },
        r matches Err(e) ==> {
            &&& g2_deser_of(buf@.subrange(pos as int, pos as int + 96)) is None
            &&& e == PointproofsError::MalformedParameters
        },
{
    let mut slice: &[u8] = &buf[pos..pos + 96];
    match G2Affine::deserialize(&mut slice, true) {
        Ok(p) => Ok(p),
        Err(_) => Err(PointproofsError::MalformedParameters),
    }
}

/// Relies on `SerDes::serialize` for `Fq12`: it appends the canonical
/// 576-byte encoding (twelve big-endian base-field coordinates), which
/// decodes back to the same element; writing to a byte vector cannot fail.
#[verifier::external_body]
pub fn gt_write(a: &Fq12, out: &mut Vec<u8>)
    ensures
        final(out)@ == old(out)@ + gt_ser_of(*a),
        final(out)@.len() == old(out)@.len() + 576,
        gt_deser_of(final(out)@.skip(old(out)@.len() as int)) == Some(*a),
{
    a.serialize(out, true).unwrap()
}

/// Relies on `SerDes::deserialize` for `Fq12`: it consumes 576 bytes and
/// accepts exactly the canonical encodings, returning the encoded element.
#[verifier::external_body]
pub fn gt_read(buf: &[u8], pos: usize) -> (r: Result<Fq12, PointproofsError>)
    requires
        pos + 576 <= buf@.len(),
    ensures
        r matches Ok(a) ==> {
            &&& gt_deser_of(buf@.subrange(pos as int, pos as int + 576)) == Some(a)
            &&& buf@.subrange(pos as int, pos as int + 576) == gt_ser_of(a)
            &&& gt_ser_of(a).len() == 576
            &&& gt_deser_of(gt_ser_of(a)) == Some(a)
        },
        r matches Err(e) ==> {
            &&& gt_deser_of(buf@.subrange(pos as int, pos as int + 576)) is None
            &&& e == PointproofsError::MalformedParameters
        },
{
    let mut slice: &[u8] = &buf[pos..pos + 576];
    match Fq12::deserialize(&mut slice, true) {
        Ok(a) => Ok(a),
        Err(_) => Err(PointproofsError::MalformedParameters),
    }
}

} // verus!
