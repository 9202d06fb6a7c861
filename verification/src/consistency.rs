//! Public well-formedness check of an untrusted parameter set.
//!
//! Given only a candidate parameter set — no trapdoor — the check confirms
//! probabilistically that some single trapdoor could have produced it. Ladder
//! entries equal to the identity or the generator are rejected outright; the
//! algebraic structure is then spot-checked with fresh random coefficients:
//! batched pairing identities tie the two source-group ladders to each other,
//! consecutive entries to one multiplication by the trapdoor, the post-gap
//! ladders to the pre-gap ones, and the target element to the skipped
//! exponent. Each random check has negligible false-accept probability.
use vstd::prelude::*;

use crate::curve::{
    g1_add, g1_add_of, g1_gen_pt, g1_generator, g1_is_gen_of, g1_is_generator, g1_is_ident_of,
    g1_is_identity, g1_msm_of, g1_mul, g1_mul_of, g1_sum_of_products, g2_gen_pt, g2_generator,
    g2_is_gen_of, g2_is_generator, g2_is_ident_of, g2_is_identity, g2_msm_of, g2_sum_of_products,
    gt_eq, pairing, pairing_of,
};
use crate::paramgen::random_scalar;
use crate::params::PointproofsParams;
use pairing_plus::bls12_381::{Fr, G1Affine, G2Affine};
use vstd::slice::slice_subrange;

verus! {

/// Some entry is the identity or the generator — a cheap necessary reason to
/// reject.
pub open spec fn g1_seq_flagged(s: Seq<G1Affine>) -> bool {
    exists|i: int|
        0 <= i < s.len() && (g1_is_ident_of(#[trigger] s[i]) || g1_is_gen_of(s[i]))
}

/// Some entry is the identity or the generator — a cheap necessary reason to
/// reject.
pub open spec fn g2_seq_flagged(s: Seq<G2Affine>) -> bool {
    exists|i: int|
        0 <= i < s.len() && (g2_is_ident_of(#[trigger] s[i]) || g2_is_gen_of(s[i]))
}

/// Some ladder of the parameter set holds a flagged entry.
pub open spec fn has_flagged(p: PointproofsParams) -> bool {
    ||| g2_seq_flagged(p.g2_alpha_1_to_n@)
    ||| g2_seq_flagged(p.g2_alpha_nplus2_to_2n@)
    ||| g1_seq_flagged(p.g1_alpha_1_to_n@)
    ||| g1_seq_flagged(p.g1_alpha_nplus2_to_2n@)
}

/// The four batched pairing identities, under one vector of random
/// coefficients `rs` (one per ladder position; the last weights only the
/// first check).
pub open spec fn consistency_checks(p: PointproofsParams, rs: Seq<Fr>) -> bool
    recommends
        p.wf(),
        rs.len() == p.n,
{
    let n = p.n as int;
    let s_pt = g1_msm_of(p.g1_alpha_1_to_n@.subrange(0, n - 1), rs.subrange(0, n - 1));
    let r1 = g1_add_of(g1_mul_of(p.g1_alpha_1_to_n@[n - 1], rs[n - 1]), s_pt);
    let r2 = g2_msm_of(p.g2_alpha_1_to_n@, rs);
    let t_pt = g1_msm_of(p.g1_alpha_1_to_n@.subrange(1, n), rs.subrange(0, n - 1));
    let u1 = g1_msm_of(p.g1_alpha_nplus2_to_2n@, rs.subrange(0, n - 1));
    let u2 = g2_msm_of(p.g2_alpha_nplus2_to_2n@, rs.subrange(0, n - 1));
    &&& pairing_of(r1, g2_gen_pt()) == pairing_of(g1_gen_pt(), r2)
    &&& pairing_of(s_pt, p.g2_alpha_1_to_n@[0]) == pairing_of(t_pt, g2_gen_pt())
    &&& pairing_of(p.g1_alpha_1_to_n@[n - 1], p.g2_alpha_1_to_n@[0]) == p.gt_alpha_nplus1
    &&& pairing_of(t_pt, p.g2_alpha_1_to_n@[n - 1]) == pairing_of(u1, g2_gen_pt())
    &&& pairing_of(t_pt, p.g2_alpha_1_to_n@[n - 1]) == pairing_of(g1_gen_pt(), u2)
}

/// What one run of the consistency check decides, given its coins.
pub open spec fn consistent_given(p: PointproofsParams, rs: Seq<Fr>) -> bool {
    !has_flagged(p) && consistency_checks(p, rs)
}

/// Whether any entry of a G1 ladder is the identity or the generator.
fn g1_any_flagged(v: &Vec<G1Affine>) -> (r: bool)
    ensures
        r == g1_seq_flagged(v@),
{
    let mut i: usize = 0;
    while i < v.len()
        invariant
            i <= v@.len(),
            forall|j: int|
                0 <= j < i ==> !g1_is_ident_of(#[trigger] v@[j]) && !g1_is_gen_of(v@[j]),
        decreases v@.len() - i,
    {
        if g1_is_identity(&v[i]) || g1_is_generator(&v[i]) {
            return true;
        }
        i = i + 1;
    }
    false
}

/// Whether any entry of a G2 ladder is the identity or the generator.
fn g2_any_flagged(v: &Vec<G2Affine>) -> (r: bool)
    ensures
        r == g2_seq_flagged(v@),
{
    let mut i: usize = 0;
    while i < v.len()
        invariant
            i <= v@.len(),
            forall|j: int|
                0 <= j < i ==> !g2_is_ident_of(#[trigger] v@[j]) && !g2_is_gen_of(v@[j]),
        decreases v@.len() - i,
    {
        if g2_is_identity(&v[i]) || g2_is_generator(&v[i]) {
            return true;
        }
        i = i + 1;
    }
    false
}

/// One run of the consistency check under caller-supplied coins: returns
/// exactly whether no ladder entry is flagged and all four batched pairing
/// identities hold for those coins.
pub fn consistent_with_coins(params: &PointproofsParams, coins: &Vec<Fr>) -> (r: bool)
    requires
        params.wf(),
        coins@.len() == params.n,
    ensures
        r == consistent_given(*params, coins@),
{
    if g2_any_flagged(&params.g2_alpha_1_to_n) {
        return false;
    }
    if g2_any_flagged(&params.g2_alpha_nplus2_to_2n) {
        return false;
    }
    if g1_any_flagged(&params.g1_alpha_1_to_n) {
        return false;
    }
    if g1_any_flagged(&params.g1_alpha_nplus2_to_2n) {
        return false;
    }
    let n = params.n;
    let rs_head = slice_subrange(coins.as_slice(), 0, n - 1);
    let s_pt = g1_sum_of_products(
        slice_subrange(params.g1_alpha_1_to_n.as_slice(), 0, n - 1),
        rs_head,
    );
    let top_term = g1_mul(&params.g1_alpha_1_to_n[n - 1], &coins[n - 1]);
    let r1 = g1_add(&top_term, &s_pt);
    let r2 = g2_sum_of_products(params.g2_alpha_1_to_n.as_slice(), coins.as_slice());
    let t_pt = g1_sum_of_products(
        slice_subrange(params.g1_alpha_1_to_n.as_slice(), 1, n),
        rs_head,
    );
    let u1 = g1_sum_of_products(params.g1_alpha_nplus2_to_2n.as_slice(), rs_head);
    let u2 = g2_sum_of_products(params.g2_alpha_nplus2_to_2n.as_slice(), rs_head);
    let g1g = g1_generator();
    let g2g = g2_generator();
    let lhs1 = pairing(&r1, &g2g);
    let rhs1 = pairing(&g1g, &r2);
    if !gt_eq(&lhs1, &rhs1) {
        return false;
    }
    let lhs2 = pairing(&s_pt, &params.g2_alpha_1_to_n[0]);
    let rhs2 = pairing(&t_pt, &g2g);
    if !gt_eq(&lhs2, &rhs2) {
        return false;
    }
    let lhs3 = pairing(&params.g1_alpha_1_to_n[n - 1], &params.g2_alpha_1_to_n[0]);
    if !gt_eq(&lhs3, &params.gt_alpha_nplus1) {
        return false;
    }
    let lhs4 = pairing(&t_pt, &params.g2_alpha_1_to_n[n - 1]);
    let rhs4a = pairing(&u1, &g2g);
    if !gt_eq(&lhs4, &rhs4a) {
        return false;
    }
    let rhs4b = pairing(&g1g, &u2);
    if !gt_eq(&lhs4, &rhs4b) {
        return false;
    }
    true
}

/// Check that a candidate parameter set is of the legitimate algebraic form
/// for some trapdoor, using fresh random coins, never the trapdoor itself.
/// A `true` answer guarantees at least that no ladder entry is the identity
/// or the generator and that the four batched identities held for the coins
/// drawn; `false` means the set must be rejected. If the entropy source
/// fails, the set is rejected.
pub fn consistent(params: &PointproofsParams) -> (r: bool)
    requires
        params.wf(),
    ensures
        r ==> !has_flagged(*params) && (exists|rs: Seq<Fr>|
            rs.len() == params.n && consistency_checks(*params, rs)),
{
    let mut coins: Vec<Fr> = Vec::new();
    let mut i: usize = 0;
    while i < params.n
        invariant
            i <= params.n,
            coins@.len() == i,
        decreases params.n - i,
    {
        let c = match random_scalar() {
            Ok(c) => c,
            Err(_) => {
                return false;
            },
        };
        coins.push(c);
        i = i + 1;
    }
    let r = consistent_with_coins(params, &coins);
    proof {
        if r {
            assert(coins@.len() == params.n && consistency_checks(*params, coins@));
        }
    }
    r
}

} // verus!
