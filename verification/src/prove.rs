//! The proof engine.
//!
//! The opening proof for index `i` is the multi-scalar multiplication of the
//! other indices' scalars against ladder entries shifted by the gap: relative
//! to the commitment's slot convention, every slot moves up by `i + 1`
//! exponents, so the slot of index `j` lands at exponent `n + 1 + i - j` —
//! below the gap for `j > i`, above it for `j < i`, and exactly the gap for
//! `j == i`, which is why index `i`'s own scalar is left out. Verification
//! pairs the commitment against `g2^{alpha^{i+1}}` and accepts exactly when
//! that equals the proof paired with the G2 generator times the gap element
//! raised to index `i`'s own scalar.
use vstd::prelude::*;

use crate::commit::{byte_views, hash_t, t_of, Commitment, CIPHERSUITE};
use crate::curve::{
    g1_clone, g1_deser_of, g1_msm_of, g1_read, g1_ser_of, g1_sum_of_products, g1_write, g2_gen_pt,
    g2_generator, gt_eq, gt_mul, gt_mul_of, gt_pow, gt_pow_of, pairing, pairing_of,
};
use crate::errors::PointproofsError;
use crate::params::{PointproofsParams, VerifierParams};
use pairing_plus::bls12_381::{Fr, G1Affine};
use vstd::slice::slice_index_get;

verus! {

/// Opening evidence that one index of a committed vector holds one value.
#[derive(Debug, PartialEq)]
pub struct Proof {
    /// Tag of the curve/hash parameter family the proof was made under.
    pub ciphersuite: u8,
    /// The proof's G1 element.
    pub value: G1Affine,
}

impl Proof {
    /// Serialize as one ciphersuite byte followed by the compressed G1
    /// element. Only the compressed mode exists; requesting the uncompressed
    /// mode is a usage error.
    pub fn serialize(&self, compressed: bool) -> (r: Result<Vec<u8>, PointproofsError>)
        ensures
            r matches Ok(b) ==> compressed && b@ == seq![self.ciphersuite] + g1_ser_of(self.value)
                && b@.len() == 49 && g1_deser_of(g1_ser_of(self.value)) == Some(self.value),
            r matches Err(e) ==> !compressed && e == PointproofsError::MalformedParameters,
            compressed ==> r is Ok,
    {
        if !compressed {
            return Err(PointproofsError::MalformedParameters);
        }
        let mut out: Vec<u8> = Vec::new();
        out.push(self.ciphersuite);
        g1_write(&self.value, &mut out);
        proof {
            assert(out@ =~= seq![self.ciphersuite] + g1_ser_of(self.value));
            assert(out@.skip(1) =~= g1_ser_of(self.value));
        }
        Ok(out)
    }

    /// Parse the wire form: exactly 49 bytes, a known ciphersuite tag, then a
    /// canonical point encoding; anything else — unknown tag, wrong length,
    /// invalid point — is rejected as malformed.
    pub fn deserialize(bytes: &[u8], compressed: bool) -> (r: Result<Proof, PointproofsError>)
        ensures
            r matches Ok(pf) ==> compressed && pf.ciphersuite == CIPHERSUITE && bytes@ == seq![
                CIPHERSUITE,
            ] + g1_ser_of(pf.value),
            r matches Err(e) ==> e == PointproofsError::MalformedParameters,
            !compressed ==> r is Err,
            forall|pf: Proof|
                (compressed && pf.ciphersuite == CIPHERSUITE && (#[trigger] g1_ser_of(
                    pf.value,
                )).len() == 48 && g1_deser_of(g1_ser_of(pf.value)) == Some(pf.value) && bytes@
                    == seq![CIPHERSUITE] + g1_ser_of(pf.value)) ==> (r matches Ok(q) && q == pf),
    {
        if !compressed {
            return Err(PointproofsError::MalformedParameters);
        }
        if bytes.len() != 49 {
            return Err(PointproofsError::MalformedParameters);
        }
        let tag = *slice_index_get(bytes, 0);
        if tag != CIPHERSUITE {
            return Err(PointproofsError::MalformedParameters);
        }
        match g1_read(bytes, 1) {
            Ok(pt) => {
                proof {
                    assert(bytes@ =~= seq![CIPHERSUITE] + g1_ser_of(pt));
                    assert forall|pf: Proof|
                        (pf.ciphersuite == CIPHERSUITE && (#[trigger] g1_ser_of(pf.value)).len()
                            == 48 && g1_deser_of(g1_ser_of(pf.value)) == Some(pf.value) && bytes@
                            == seq![CIPHERSUITE] + g1_ser_of(pf.value)) implies pf.value == pt by {
                        assert(bytes@.subrange(1, 49) =~= g1_ser_of(pf.value));
                    }
                }
                Ok(Proof { ciphersuite: CIPHERSUITE, value: pt })
            },
            Err(e) => {
                proof {
                    assert forall|pf: Proof|
                        !(pf.ciphersuite == CIPHERSUITE && (#[trigger] g1_ser_of(pf.value)).len()
                            == 48 && g1_deser_of(g1_ser_of(pf.value)) == Some(pf.value) && bytes@
                            == seq![CIPHERSUITE] + g1_ser_of(pf.value)) by {
                        if g1_ser_of(pf.value).len() == 48 && bytes@ == seq![CIPHERSUITE]
                            + g1_ser_of(pf.value) {
                            assert(bytes@.subrange(1, 49) =~= g1_ser_of(pf.value));
                        }
                    }
                }
                Err(e)
            },
        }
    }
}

/// The ladder entry that index `j`'s scalar multiplies in the proof for
/// index `i`: exponent `n + 1 + i - j`, drawn from the gap ladder when
/// `j < i` and from the main ladder when `j > i`.
pub open spec fn proof_base_spec(pp: PointproofsParams, i: int, j: int) -> G1Affine {
    if j < i {
        pp.g1_alpha_nplus2_to_2n@[i - j - 1]
    } else {
        pp.g1_alpha_1_to_n@[pp.n - (j - i)]
    }
}

/// The position in the vector that slot `k` of the proof's multi-scalar
/// multiplication speaks of: the proved index itself is skipped.
pub open spec fn skip_index(k: int, i: int) -> int {
    if k < i {
        k
    } else {
        k + 1
    }
}

/// The bases of the proof for index `i` over a vector of length `l`.
pub open spec fn proof_bases_spec(pp: PointproofsParams, i: int, l: int) -> Seq<G1Affine> {
    Seq::new((l - 1) as nat, |k: int| proof_base_spec(pp, i, skip_index(k, i)))
}

/// The scalars of the proof for index `i`: every index's weight but `i`'s
/// own.
pub open spec fn proof_scalars_spec(pp: PointproofsParams, i: int, values: Seq<Seq<u8>>) -> Seq<
    Fr,
> {
    Seq::new(
        (values.len() - 1) as nat,
        |k: int| t_of(pp.n as int, skip_index(k, i), values[skip_index(k, i)]),
    )
}

/// The proof's G1 element for index `i` of a value vector.
pub open spec fn proof_value_spec(pp: PointproofsParams, values: Seq<Seq<u8>>, i: int) -> G1Affine {
    g1_msm_of(proof_bases_spec(pp, i, values.len() as int), proof_scalars_spec(pp, i, values))
}

/// The pairing identity verification checks: the commitment paired against
/// `g2^{alpha^{i+1}}` equals the proof paired against the G2 generator,
/// times the gap element raised to the claimed value's scalar weight.
pub open spec fn verify_spec(
    vp: VerifierParams,
    com: Commitment,
    pf: Proof,
    value: Seq<u8>,
    i: int,
) -> bool {
    &&& com.ciphersuite == CIPHERSUITE
    &&& pf.ciphersuite == CIPHERSUITE
    &&& 0 <= i < vp.n
    &&& pairing_of(com.value, vp.g2_alpha_1_to_n@[i]) == gt_mul_of(
        pairing_of(pf.value, g2_gen_pt()),
        gt_pow_of(vp.gt_alpha_nplus1, t_of(vp.n as int, i, value)),
    )
}

/// The proof for an index does not involve that index's own value: two
/// vectors that differ only at the proved index have the same proof there.
pub proof fn lemma_proof_ignores_own_index(
    pp: PointproofsParams,
    values: Seq<Seq<u8>>,
    values2: Seq<Seq<u8>>,
    i: int,
)
    requires
        values.len() == values2.len(),
        0 <= i < values.len(),
        forall|j: int| 0 <= j < values.len() && j != i ==> values[j] == values2[j],
    ensures
        proof_value_spec(pp, values, i) == proof_value_spec(pp, values2, i),
{
    assert(proof_scalars_spec(pp, i, values) =~= proof_scalars_spec(pp, i, values2));
}

/// Generate the opening proof for one index. Fails with `CapacityExceeded`
/// when the vector is longer than the parameter capacity, and with
/// `IndexOutOfRange` when the index is not within the vector.
pub fn prove(prover_params: &PointproofsParams, values: &Vec<Vec<u8>>, index: usize) -> (r: Result<
    Proof,
    PointproofsError,
>)
    requires
        prover_params.wf(),
    ensures
        values@.len() > prover_params.n ==> (r matches Err(e) && e
            == PointproofsError::CapacityExceeded),
        values@.len() <= prover_params.n && index >= values@.len() ==> (r matches Err(e) && e
            == PointproofsError::IndexOutOfRange),
        values@.len() <= prover_params.n && index < values@.len() ==> (r matches Ok(pf) && pf
            == (Proof {
            ciphersuite: CIPHERSUITE,
            value: proof_value_spec(*prover_params, byte_views(values@), index as int),
        })),
{
    if values.len() > prover_params.n {
        return Err(PointproofsError::CapacityExceeded);
    }
    if index >= values.len() {
        return Err(PointproofsError::IndexOutOfRange);
    }
    let l = values.len();
    let n = prover_params.n;
    let mut bases: Vec<G1Affine> = Vec::new();
    let mut scalars: Vec<Fr> = Vec::new();
    let mut j: usize = 0;
    while j < l
        invariant
            j <= l,
            l == values@.len(),
            l <= n,
            index < l,
            n == prover_params.n,
            prover_params.wf(),
            bases@.len() == scalars@.len(),
            bases@.len() == if j <= index {
                j as int
            } else {
                j - 1
            },
            forall|k: int|
                0 <= k < bases@.len() ==> bases@[k] == proof_base_spec(
                    *prover_params,
                    index as int,
                    skip_index(k, index as int),
                ) && scalars@[k] == t_of(
                    n as int,
                    skip_index(k, index as int),
                    values@[skip_index(k, index as int)]@,
                ),
        decreases l - j,
    {
        if j != index {
            let base = if j < index {
                g1_clone(&prover_params.g1_alpha_nplus2_to_2n[index - j - 1])
            } else {
                g1_clone(&prover_params.g1_alpha_1_to_n[n - (j - index)])
            };
            bases.push(base);
            let t = hash_t(n, j, &values[j]);
            scalars.push(t);
        }
        j = j + 1;
    }
    proof {
        assert(bases@ =~= proof_bases_spec(*prover_params, index as int, l as int));
        assert(scalars@ =~= proof_scalars_spec(
            *prover_params,
            index as int,
            byte_views(values@),
        ));
    }
    let v = g1_sum_of_products(bases.as_slice(), scalars.as_slice());
    Ok(Proof { ciphersuite: CIPHERSUITE, value: v })
}

/// Check an opening proof against a commitment. Returns exactly the truth of
/// the scheme's pairing identity; an out-of-range index or an unknown
/// ciphersuite tag never verifies. A `false` result is an expected outcome,
/// not an error.
pub fn verify(
    verifier_params: &VerifierParams,
    com: &Commitment,
    proof: &Proof,
    value: &Vec<u8>,
    index: usize,
) -> (r: bool)
    requires
        verifier_params.wf(),
    ensures
        r == verify_spec(*verifier_params, *com, *proof, value@, index as int),
{
    if com.ciphersuite != CIPHERSUITE || proof.ciphersuite != CIPHERSUITE {
        return false;
    }
    if index >= verifier_params.n {
        return false;
    }
    let t = hash_t(verifier_params.n, index, value);
    let g2g = g2_generator();
    let lhs = pairing(&com.value, &verifier_params.g2_alpha_1_to_n[index]);
    let gap_term = gt_pow(&verifier_params.gt_alpha_nplus1, &t);
    let proof_term = pairing(&proof.value, &g2g);
    let rhs = gt_mul(&proof_term, &gap_term);
    gt_eq(&lhs, &rhs)
}

} // verus!
