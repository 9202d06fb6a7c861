//! The update engine.
//!
//! When exactly one value changes, the commitment and every proof for another
//! index move by one scalar multiple: the difference of the changed index's
//! old and new scalar weights, on the ladder slot that ties the changed index
//! to the updated object. No recomputation over the whole vector is needed.
use vstd::prelude::*;

use crate::commit::{hash_t, t_of, Commitment};
use crate::curve::{fr_sub, fr_sub_of, g1_add, g1_add_of, g1_clone, g1_mul, g1_mul_of};
use crate::errors::PointproofsError;
use crate::params::PointproofsParams;
use crate::prove::{proof_base_spec, Proof};
use pairing_plus::bls12_381::Fr;

verus! {

/// The scalar delta of a change at one index: the new weight minus the old.
pub open spec fn delta_t_spec(
    pp: PointproofsParams,
    i: int,
    value_before: Seq<u8>,
    value_after: Seq<u8>,
) -> Fr {
    fr_sub_of(t_of(pp.n as int, i, value_after), t_of(pp.n as int, i, value_before))
}

/// Move a commitment to reflect one changed value, in constant time: add the
/// scalar delta on the changed index's own ladder slot. Fails with
/// `IndexOutOfRange` exactly when the changed index is not within the
/// parameter capacity.
pub fn update_commitment(
    prover_params: &PointproofsParams,
    com: &Commitment,
    changed_index: usize,
    value_before: &Vec<u8>,
    value_after: &Vec<u8>,
) -> (r: Result<Commitment, PointproofsError>)
    requires
        prover_params.wf(),
    ensures
        changed_index >= prover_params.n ==> (r matches Err(e) && e
            == PointproofsError::IndexOutOfRange),
        changed_index < prover_params.n ==> (r matches Ok(c) && c == (Commitment {
            ciphersuite: com.ciphersuite,
            value: g1_add_of(
                com.value,
                g1_mul_of(
                    prover_params.g1_alpha_1_to_n@[prover_params.n - 1 - changed_index],
                    delta_t_spec(*prover_params, changed_index as int, value_before@, value_after@),
                ),
            ),
        })),
{
    let n = prover_params.n;
    if changed_index >= n {
        return Err(PointproofsError::IndexOutOfRange);
    }
    let t_before = hash_t(n, changed_index, value_before);
    let t_after = hash_t(n, changed_index, value_after);
    let delta = fr_sub(&t_after, &t_before);
    let step = g1_mul(&prover_params.g1_alpha_1_to_n[n - 1 - changed_index], &delta);
    let value = g1_add(&com.value, &step);
    Ok(Commitment { ciphersuite: com.ciphersuite, value })
}

/// Move a proof for one index to reflect a change at another, in constant
/// time: add the scalar delta on the gap-shifted slot relating the two
/// indices. A proof for the changed index itself does not involve its own
/// value (see `lemma_proof_ignores_own_index`), so it is returned unchanged.
/// Fails with `IndexOutOfRange` exactly when either index is not within the
/// parameter capacity.
pub fn update_proof(
    prover_params: &PointproofsParams,
    proof: &Proof,
    proof_index: usize,
    changed_index: usize,
    value_before: &Vec<u8>,
    value_after: &Vec<u8>,
) -> (r: Result<Proof, PointproofsError>)
    requires
        prover_params.wf(),
    ensures
        (proof_index >= prover_params.n || changed_index >= prover_params.n) ==> (r matches Err(e)
            && e == PointproofsError::IndexOutOfRange),
        (proof_index < prover_params.n && changed_index < prover_params.n && changed_index
            == proof_index) ==> (r matches Ok(pf) && pf == *proof),
        (proof_index < prover_params.n && changed_index < prover_params.n && changed_index
            != proof_index) ==> (r matches Ok(pf) && pf == (Proof {
            ciphersuite: proof.ciphersuite,
            value: g1_add_of(
                proof.value,
                g1_mul_of(
                    proof_base_spec(*prover_params, proof_index as int, changed_index as int),
                    delta_t_spec(*prover_params, changed_index as int, value_before@, value_after@),
                ),
            ),
        })),
{
    let n = prover_params.n;
    if proof_index >= n || changed_index >= n {
        return Err(PointproofsError::IndexOutOfRange);
    }
    if changed_index == proof_index {
        let value = g1_clone(&proof.value);
        return Ok(Proof { ciphersuite: proof.ciphersuite, value });
    }
    let t_before = hash_t(n, changed_index, value_before);
    let t_after = hash_t(n, changed_index, value_after);
    let delta = fr_sub(&t_after, &t_before);
    let base = if changed_index < proof_index {
        g1_clone(&prover_params.g1_alpha_nplus2_to_2n[proof_index - changed_index - 1])
    } else {
        g1_clone(&prover_params.g1_alpha_1_to_n[n - (changed_index - proof_index)])
    };
    let step = g1_mul(&base, &delta);
    let value = g1_add(&proof.value, &step);
    Ok(Proof { ciphersuite: proof.ciphersuite, value })
}

} // verus!
