//! Generation of the structured reference string.
//!
//! A trapdoor scalar `alpha` — derived from a public seed or sampled at
//! random — drives two ladders of powers in each source group: exponents
//! `1..=n`, then `n+2..=2n`, skipping `n+1`. The skipped exponent exists only
//! as a pairing-target element; neither group ever exposes it. The trapdoor
//! is erased as soon as the ladders exist.
use vstd::prelude::*;

use crate::curve::{
    fr_zeroize, g1_gen_pt, g1_generator, g1_mul, g1_mul_of, g2_clone, g2_gen_pt, g2_generator,
    g2_mul, g2_mul_of, gt_clone, hash_fr_of, hash_to_fr, os_random_bytes, pairing, pairing_of,
    zeroize_buf,
};
use crate::errors::PointproofsError;
use crate::params::{PointproofsParams, VerifierParams, MAX_CAPACITY};
use pairing_plus::bls12_381::{Fr, G1Affine, G2Affine};

verus! {

/// The fewest seed bytes the deterministic mode accepts.
pub const MIN_SEED_LEN: usize = 32;

/// Every entry of the ladder is the previous one (the given start for the
/// first) multiplied by `alpha`.
pub open spec fn g1_ladder_linked(s: Seq<G1Affine>, start: G1Affine, alpha: Fr) -> bool {
    forall|i: int|
        0 <= i < s.len() ==> (#[trigger] s[i]) == g1_mul_of(
            if i == 0 {
                start
            } else {
                s[i - 1]
            },
            alpha,
        )
}

/// Every entry of the ladder is the previous one (the given start for the
/// first) multiplied by `alpha`.
pub open spec fn g2_ladder_linked(s: Seq<G2Affine>, start: G2Affine, alpha: Fr) -> bool {
    forall|i: int|
        0 <= i < s.len() ==> (#[trigger] s[i]) == g2_mul_of(
            if i == 0 {
                start
            } else {
                s[i - 1]
            },
            alpha,
        )
}

/// The whole parameter set is the reference string of the trapdoor `alpha`:
/// both main ladders start at the group generators, both gap ladders start
/// two multiplications past the top of the main ladders (skipping the
/// exponent `n+1`), and the target element is the pairing at that skipped
/// exponent.
pub open spec fn ladders_linked(p: PointproofsParams, alpha: Fr) -> bool
    recommends
        p.wf(),
{
    &&& g1_ladder_linked(p.g1_alpha_1_to_n@, g1_gen_pt(), alpha)
    &&& g1_ladder_linked(
        p.g1_alpha_nplus2_to_2n@,
        g1_mul_of(p.g1_alpha_1_to_n@[p.n - 1], alpha),
        alpha,
    )
    &&& g2_ladder_linked(p.g2_alpha_1_to_n@, g2_gen_pt(), alpha)
    &&& g2_ladder_linked(
        p.g2_alpha_nplus2_to_2n@,
        g2_mul_of(p.g2_alpha_1_to_n@[p.n - 1], alpha),
        alpha,
    )
    &&& p.gt_alpha_nplus1 == pairing_of(g1_mul_of(p.g1_alpha_1_to_n@[p.n - 1], alpha), g2_gen_pt())
}

/// The verifier-side parameters are the stated projection of the prover's.
pub open spec fn verifier_projection(pp: PointproofsParams, vp: VerifierParams) -> bool {
    &&& vp.n == pp.n
    &&& vp.g2_alpha_1_to_n@ == pp.g2_alpha_1_to_n@
    &&& vp.gt_alpha_nplus1 == pp.gt_alpha_nplus1
}

/// Compute both parameter sets from a trapdoor. The caller erases the
/// trapdoor afterwards.
fn compute_ladders(alpha: &Fr, n: usize) -> (r: (PointproofsParams, VerifierParams))
    requires
        1 <= n <= MAX_CAPACITY,
    ensures
        r.0.wf(),
        r.0.n == n,
        ladders_linked(r.0, *alpha),
        r.1.wf(),
        verifier_projection(r.0, r.1),
{
    let g2g = g2_generator();
    let g1g = g1_generator();
    let mut g1_main: Vec<G1Affine> = Vec::new();
    let first1 = g1_mul(&g1g, alpha);
    g1_main.push(first1);
    let mut i: usize = 1;
    while i < n
        invariant
            1 <= i <= n,
            g1_main@.len() == i,
            g1_ladder_linked(g1_main@, g1_gen_pt(), *alpha),
        decreases n - i,
    {
        let next = g1_mul(&g1_main[i - 1], alpha);
        g1_main.push(next);
        i = i + 1;
    }
    let mut g2_main: Vec<G2Affine> = Vec::new();
    let first2 = g2_mul(&g2g, alpha);
    g2_main.push(first2);
    let mut i: usize = 1;
    while i < n
        invariant
            1 <= i <= n,
            g2_main@.len() == i,
            g2_ladder_linked(g2_main@, g2_gen_pt(), *alpha),
        decreases n - i,
    {
        let next = g2_mul(&g2_main[i - 1], alpha);
        g2_main.push(next);
        i = i + 1;
    }
    // The elements at the skipped exponent n+1: computed locally to bridge
    // into the gap ladders and to pair into the target element, never stored.
    let g1_bridge = g1_mul(&g1_main[n - 1], alpha);
    let g2_bridge = g2_mul(&g2_main[n - 1], alpha);
    let gt_gap = pairing(&g1_bridge, &g2g);
    let mut g1_gap: Vec<G1Affine> = Vec::new();
    let mut i: usize = 0;
    while i < n - 1
        invariant
            i <= n - 1,
            n <= MAX_CAPACITY,
            g1_main@.len() == n,
            g1_gap@.len() == i,
            g1_bridge == g1_mul_of(g1_main@[n - 1], *alpha),
            g1_ladder_linked(g1_gap@, g1_bridge, *alpha),
        decreases n - 1 - i,
    {
        let next = if i == 0 {
            g1_mul(&g1_bridge, alpha)
        } else {
            g1_mul(&g1_gap[i - 1], alpha)
        };
        g1_gap.push(next);
        i = i + 1;
    }
    let mut g2_gap: Vec<G2Affine> = Vec::new();
    let mut i: usize = 0;
    while i < n - 1
        invariant
            i <= n - 1,
            n <= MAX_CAPACITY,
            g2_main@.len() == n,
            g2_gap@.len() == i,
            g2_bridge == g2_mul_of(g2_main@[n - 1], *alpha),
            g2_ladder_linked(g2_gap@, g2_bridge, *alpha),
        decreases n - 1 - i,
    {
        let next = if i == 0 {
            g2_mul(&g2_bridge, alpha)
        } else {
            g2_mul(&g2_gap[i - 1], alpha)
        };
        g2_gap.push(next);
        i = i + 1;
    }
    let mut v_g2: Vec<G2Affine> = Vec::new();
    let mut i: usize = 0;
    while i < n
        invariant
            i <= n,
            g2_main@.len() == n,
            v_g2@.len() == i,
            forall|j: int| 0 <= j < i ==> v_g2@[j] == g2_main@[j],
        decreases n - i,
    {
        let copy = g2_clone(&g2_main[i]);
        v_g2.push(copy);
        i = i + 1;
    }
    proof {
        assert(v_g2@ =~= g2_main@);
    }
    let vp_gt = gt_clone(&gt_gap);
    let pp = PointproofsParams {
        n,
        g1_alpha_1_to_n: g1_main,
        g1_alpha_nplus2_to_2n: g1_gap,
        g2_alpha_1_to_n: g2_main,
        g2_alpha_nplus2_to_2n: g2_gap,
        gt_alpha_nplus1: gt_gap,
    };
    let vp = VerifierParams { n, g2_alpha_1_to_n: v_g2, gt_alpha_nplus1: vp_gt };
    (pp, vp)
}

impl PointproofsParams {
    /// Generate the reference string deterministically from a public seed and
    /// a ciphersuite selector. Reproducible by construction — suitable for
    /// tests and benchmarks, not for a production trust assumption. Fails
    /// with `InvalidCapacity` when `n` is zero or above the ceiling, and with
    /// `RandomnessFailure` when the seed is shorter than `MIN_SEED_LEN`.
    pub fn paramgen_from_seed(seed: &[u8], ciphersuite: u8, n: usize) -> (r: Result<
        (PointproofsParams, VerifierParams),
        PointproofsError,
    >)
        ensures
            (n == 0 || n > MAX_CAPACITY) ==> (r matches Err(e) && e
                == PointproofsError::InvalidCapacity),
            (1 <= n <= MAX_CAPACITY && seed@.len() < MIN_SEED_LEN) ==> (r matches Err(e) && e
                == PointproofsError::RandomnessFailure),
            (1 <= n <= MAX_CAPACITY && seed@.len() >= MIN_SEED_LEN) ==> r is Ok,
            r matches Ok(pv) ==> {
                &&& 1 <= n <= MAX_CAPACITY
                &&& seed@.len() >= MIN_SEED_LEN
                &&& pv.0.wf()
                &&& pv.0.n == n
                &&& ladders_linked(pv.0, hash_fr_of(seed@, seq![ciphersuite]))
                &&& pv.1.wf()
                &&& verifier_projection(pv.0, pv.1)
            },
    {
        if n == 0 || n > MAX_CAPACITY {
            return Err(PointproofsError::InvalidCapacity);
        }
        if seed.len() < MIN_SEED_LEN {
            return Err(PointproofsError::RandomnessFailure);
        }
        let mut dst: Vec<u8> = Vec::new();
        dst.push(ciphersuite);
        proof {
            assert(dst@ =~= seq![ciphersuite]);
        }
        let mut alpha = hash_to_fr(seed, dst.as_slice());
        let pair = compute_ladders(&alpha, n);
        fr_zeroize(&mut alpha);
        Ok(pair)
    }

    /// Generate the reference string from a uniformly random trapdoor drawn
    /// from the operating system's entropy source; the trapdoor and its seed
    /// bytes are erased before returning. Fails with `InvalidCapacity` when
    /// `n` is zero or above the ceiling, and with `RandomnessFailure` when no
    /// entropy can be drawn.
    pub fn paramgen_random(n: usize) -> (r: Result<
        (PointproofsParams, VerifierParams),
        PointproofsError,
    >)
        ensures
            (n == 0 || n > MAX_CAPACITY) ==> (r matches Err(e) && e
                == PointproofsError::InvalidCapacity),
            r matches Err(e) ==> (e == PointproofsError::InvalidCapacity || e
                == PointproofsError::RandomnessFailure),
            (r matches Err(e) && e == PointproofsError::InvalidCapacity) ==> (n == 0 || n
                > MAX_CAPACITY),
            r matches Ok(pv) ==> {
                &&& 1 <= n <= MAX_CAPACITY
                &&& pv.0.wf()
                &&& pv.0.n == n
                &&& (exists|alpha: Fr| ladders_linked(pv.0, alpha))
                &&& pv.1.wf()
                &&& verifier_projection(pv.0, pv.1)
            },
    {
        if n == 0 || n > MAX_CAPACITY {
            return Err(PointproofsError::InvalidCapacity);
        }
        let mut seed_bytes = match os_random_bytes(64) {
            Ok(b) => b,
            Err(e) => {
                return Err(e);
            },
        };
        let mut dst: Vec<u8> = Vec::new();
        dst.push(0u8);
        let mut alpha = hash_to_fr(seed_bytes.as_slice(), dst.as_slice());
        let ghost alpha0 = alpha;
        zeroize_buf(&mut seed_bytes);
        let pair = compute_ladders(&alpha, n);
        fr_zeroize(&mut alpha);
        proof {
            assert(ladders_linked(pair.0, alpha0));
        }
        Ok(pair)
    }
}

/// A scalar derived from 64 fresh bytes of operating-system entropy, with
/// the bytes erased afterwards.
pub(crate) fn random_scalar() -> (r: Result<Fr, PointproofsError>)
    ensures
        r matches Err(e) ==> e == PointproofsError::RandomnessFailure,
{
    let mut b = match os_random_bytes(64) {
        Ok(b) => b,
        Err(e) => {
            return Err(e);
        },
    };
    let mut dst: Vec<u8> = Vec::new();
    dst.push(0u8);
    let s = hash_to_fr(b.as_slice(), dst.as_slice());
    zeroize_buf(&mut b);
    Ok(s)
}

} // verus!
