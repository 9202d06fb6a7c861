//! Windowed precomputation tables.
//!
//! A table holds fixed multiples of each ladder entry — 256 per point for the
//! 8-bit window, 3 per point for the 3-bit window — trading memory for fewer
//! point additions per scalar multiplication. Tables are built once per
//! parameter set, are pure functions of the ladder, and never change what is
//! computed: every operation taking a table has the same contract as its
//! plain counterpart, so precomputed and plain variants produce bit-identical
//! results.
use vstd::prelude::*;

use crate::commit::{byte_views, commit_bases_spec, commit_scalars_spec, commit_value_spec, hash_t, t_of, Commitment, CIPHERSUITE};
use crate::curve::{
    fr_sub, g1_add, g1_add_of, g1_clone, g1_msm_precomp_256, g1_mul_of, g1_mul_precomp_3,
    g1_precomp_256, g1_precomp_3, g1_table256_of, g1_table3_of,
};
use crate::errors::PointproofsError;
use crate::params::{PointproofsParams, MAX_CAPACITY};
use crate::prove::{
    proof_base_spec, proof_bases_spec, proof_scalars_spec, proof_value_spec, skip_index, Proof,
};
use crate::update::delta_t_spec;
use pairing_plus::bls12_381::{Fr, G1Affine};

verus! {

/// An 8-bit-window table: 256 precomputed multiples of each base point, laid
/// out base after base.
pub struct PrecompTable256 {
    /// The base points the table was built for.
    pub bases: Vec<G1Affine>,
    /// The concatenated per-point tables.
    pub table: Vec<G1Affine>,
}

impl PrecompTable256 {
    /// Entry `j`'s slice of the table is exactly the window-8 table of base
    /// `j`.
    pub open spec fn wf(self) -> bool {
        &&& self.table@.len() == 256 * self.bases@.len()
        &&& forall|j: int|
            0 <= j < self.bases@.len() ==> self.table@.subrange(256 * j, 256 * j + 256)
                == g1_table256_of(#[trigger] self.bases@[j])
    }
}

/// A 3-bit-window table: 3 precomputed multiples of each base point, laid
/// out base after base.
pub struct PrecompTable3 {
    /// The base points the table was built for.
    pub bases: Vec<G1Affine>,
    /// The concatenated per-point tables.
    pub table: Vec<G1Affine>,
}

impl PrecompTable3 {
    /// Entry `j`'s slice of the table is exactly the window-3 table of base
    /// `j`.
    pub open spec fn wf(self) -> bool {
        &&& self.table@.len() == 3 * self.bases@.len()
        &&& forall|j: int|
            0 <= j < self.bases@.len() ==> self.table@.subrange(3 * j, 3 * j + 3)
                == g1_table3_of(#[trigger] self.bases@[j])
    }
}

/// Build the 8-bit-window table of a ladder. Deterministic and pure; the
/// ladder itself is untouched.
pub fn build_table_256(points: &Vec<G1Affine>) -> (t: PrecompTable256)
    requires
        points@.len() <= MAX_CAPACITY,
    ensures
        t.wf(),
        t.bases@ == points@,
{
    let mut bases: Vec<G1Affine> = Vec::new();
    let mut table: Vec<G1Affine> = Vec::new();
    let mut i: usize = 0;
    while i < points.len()
        invariant
            i <= points@.len(),
            points@.len() <= MAX_CAPACITY,
            bases@.len() == i,
            forall|j: int| 0 <= j < i ==> bases@[j] == points@[j],
            table@.len() == 256 * i,
            forall|j: int|
                0 <= j < i ==> table@.subrange(256 * j, 256 * j + 256) == g1_table256_of(
                    #[trigger] bases@[j],
                ),
        decreases points@.len() - i,
    {
        let ghost old_table = table@;
        let mut tbl = g1_precomp_256(&points[i]);
        let ghost tbl_view = tbl@;
        let b = g1_clone(&points[i]);
        table.append(&mut tbl);
        bases.push(b);
        proof {
            assert forall|j: int| 0 <= j < i + 1 implies table@.subrange(256 * j, 256 * j + 256)
                == g1_table256_of(#[trigger] bases@[j]) by {
                if j < i {
                    assert(table@.subrange(256 * j, 256 * j + 256) =~= old_table.subrange(
                        256 * j,
                        256 * j + 256,
                    ));
                } else {
                    assert(table@.subrange(256 * j, 256 * j + 256) =~= tbl_view);
                }
            }
        }
        i = i + 1;
    }
    PrecompTable256 { bases, table }
}

/// Build the 3-bit-window table of a ladder. Deterministic and pure; the
/// ladder itself is untouched.
pub fn build_table_3(points: &Vec<G1Affine>) -> (t: PrecompTable3)
    requires
        points@.len() <= MAX_CAPACITY,
    ensures
        t.wf(),
        t.bases@ == points@,
{
    let mut bases: Vec<G1Affine> = Vec::new();
    let mut table: Vec<G1Affine> = Vec::new();
    let mut i: usize = 0;
    while i < points.len()
        invariant
            i <= points@.len(),
            points@.len() <= MAX_CAPACITY,
            bases@.len() == i,
            forall|j: int| 0 <= j < i ==> bases@[j] == points@[j],
            table@.len() == 3 * i,
            forall|j: int|
                0 <= j < i ==> table@.subrange(3 * j, 3 * j + 3) == g1_table3_of(
                    #[trigger] bases@[j],
                ),
        decreases points@.len() - i,
    {
        let ghost old_table = table@;
        let mut tbl = g1_precomp_3(&points[i]);
        let ghost tbl_view = tbl@;
        let b = g1_clone(&points[i]);
        table.append(&mut tbl);
        bases.push(b);
        proof {
            assert forall|j: int| 0 <= j < i + 1 implies table@.subrange(3 * j, 3 * j + 3)
                == g1_table3_of(#[trigger] bases@[j]) by {
                if j < i {
                    assert(table@.subrange(3 * j, 3 * j + 3) =~= old_table.subrange(
                        3 * j,
                        3 * j + 3,
                    ));
                } else {
                    assert(table@.subrange(3 * j, 3 * j + 3) =~= tbl_view);
                }
            }
        }
        i = i + 1;
    }
    PrecompTable3 { bases, table }
}

/// Copy base `j`'s 256-entry slice out of an 8-bit-window table.
fn table_chunk_256(table: &PrecompTable256, j: usize) -> (chunk: Vec<G1Affine>)
    requires
        table.wf(),
        j < table.bases@.len(),
        table.bases@.len() <= MAX_CAPACITY,
    ensures
        chunk@ == g1_table256_of(table.bases@[j as int]),
        chunk@.len() == 256,
{
    let src: usize = 256 * j;
    let mut chunk: Vec<G1Affine> = Vec::new();
    let mut k: usize = 0;
    while k < 256
        invariant
            k <= 256,
            table.wf(),
            j < table.bases@.len(),
            table.bases@.len() <= MAX_CAPACITY,
            src == 256 * j,
            chunk@.len() == k,
            chunk@ == table.table@.subrange(src as int, src as int + k),
        decreases 256 - k,
    {
        let entry = g1_clone(&table.table[src + k]);
        chunk.push(entry);
        proof {
            assert(table.table@.subrange(src as int, src as int + k + 1)
                =~= table.table@.subrange(src as int, src as int + k).push(
                table.table@[src as int + k],
            ));
        }
        k = k + 1;
    }
    chunk
}

/// Fold a value vector into a commitment using an 8-bit-window table built
/// for the main G1 ladder. Same contract as `commit`: the result is
/// bit-identical to the plain variant's.
pub fn commit_with_precomp(
    prover_params: &PointproofsParams,
    table: &PrecompTable256,
    values: &Vec<Vec<u8>>,
) -> (r: Result<Commitment, PointproofsError>)
    requires
        prover_params.wf(),
        table.wf(),
        table.bases@ == prover_params.g1_alpha_1_to_n@,
    ensures
        values@.len() > prover_params.n ==> (r matches Err(e) && e
            == PointproofsError::CapacityExceeded),
        values@.len() <= prover_params.n ==> (r matches Ok(c) && c == (Commitment {
            ciphersuite: CIPHERSUITE,
            value: commit_value_spec(*prover_params, byte_views(values@)),
        })),
{
    if values.len() > prover_params.n {
        return Err(PointproofsError::CapacityExceeded);
    }
    let l = values.len();
    let n = prover_params.n;
    let mut bases: Vec<G1Affine> = Vec::new();
    let mut scalars: Vec<Fr> = Vec::new();
    let mut sel: Vec<G1Affine> = Vec::new();
    let mut i: usize = 0;
    while i < l
        invariant
            i <= l,
            l == values@.len(),
            l <= n,
            n == prover_params.n,
            prover_params.wf(),
            table.wf(),
            table.bases@ == prover_params.g1_alpha_1_to_n@,
            bases@.len() == i,
            scalars@.len() == i,
            sel@.len() == 256 * i,
            forall|k: int|
                0 <= k < i ==> bases@[k] == prover_params.g1_alpha_1_to_n@[n - 1 - k]
                    && scalars@[k] == t_of(n as int, k, values@[k]@),
            forall|k: int|
                0 <= k < i ==> sel@.subrange(256 * k, 256 * k + 256) == g1_table256_of(
                    #[trigger] bases@[k],
                ),
        decreases l - i,
    {
        let ghost old_sel = sel@;
        let base = g1_clone(&prover_params.g1_alpha_1_to_n[n - 1 - i]);
        bases.push(base);
        let t = hash_t(n, i, &values[i]);
        scalars.push(t);
        let mut chunk = table_chunk_256(table, n - 1 - i);
        let ghost chunk_view = chunk@;
        sel.append(&mut chunk);
        proof {
            let ii = i as int;
            assert forall|k2: int| 0 <= k2 < i + 1 implies sel@.subrange(256 * k2, 256 * k2 + 256)
                == g1_table256_of(#[trigger] bases@[k2]) by {
                if k2 < ii {
                    assert(sel@.subrange(256 * k2, 256 * k2 + 256) =~= old_sel.subrange(
                        256 * k2,
                        256 * k2 + 256,
                    ));
                } else {
                    assert(sel@.subrange(256 * ii, 256 * ii + 256) =~= chunk_view);
                }
            }
        }
        i = i + 1;
    }
    proof {
        assert(bases@ =~= commit_bases_spec(*prover_params, l as int));
        assert(scalars@ =~= commit_scalars_spec(*prover_params, byte_views(values@)));
    }
    let c = g1_msm_precomp_256(bases.as_slice(), scalars.as_slice(), sel.as_slice());
    Ok(Commitment { ciphersuite: CIPHERSUITE, value: c })
}

/// Generate an opening proof using 8-bit-window tables built for the main
/// and gap G1 ladders. Same contract as `prove`: the result is bit-identical
/// to the plain variant's.
pub fn prove_with_precomp(
    prover_params: &PointproofsParams,
    table_main: &PrecompTable256,
    table_gap: &PrecompTable256,
    values: &Vec<Vec<u8>>,
    index: usize,
) -> (r: Result<Proof, PointproofsError>)
    requires
        prover_params.wf(),
        table_main.wf(),
        table_main.bases@ == prover_params.g1_alpha_1_to_n@,
        table_gap.wf(),
        table_gap.bases@ == prover_params.g1_alpha_nplus2_to_2n@,
    ensures
        values@.len() > prover_params.n ==> (r matches Err(e) && e
            == PointproofsError::CapacityExceeded),
        values@.len() <= prover_params.n && index >= values@.len() ==> (r matches Err(e) && e
            == PointproofsError::IndexOutOfRange),
        values@.len() <= prover_params.n && index < values@.len() ==> (r matches Ok(pf) && pf
            == (Proof {
            ciphersuite: CIPHERSUITE,
            value: proof_value_spec(*prover_params, byte_views(values@), index as int),
        })),
{
    if values.len() > prover_params.n {
        return Err(PointproofsError::CapacityExceeded);
    }
    if index >= values.len() {
        return Err(PointproofsError::IndexOutOfRange);
    }
    let l = values.len();
    let n = prover_params.n;
    let mut bases: Vec<G1Affine> = Vec::new();
    let mut scalars: Vec<Fr> = Vec::new();
    let mut sel: Vec<G1Affine> = Vec::new();
    let mut j: usize = 0;
    while j < l
        invariant
            j <= l,
            l == values@.len(),
            l <= n,
            index < l,
            n == prover_params.n,
            prover_params.wf(),
            table_main.wf(),
            table_main.bases@ == prover_params.g1_alpha_1_to_n@,
            table_gap.wf(),
            table_gap.bases@ == prover_params.g1_alpha_nplus2_to_2n@,
            bases@.len() == scalars@.len(),
            sel@.len() == 256 * bases@.len(),
            bases@.len() == if j <= index {
                j as int
            } else {
                j - 1
            },
            forall|k: int|
                0 <= k < bases@.len() ==> bases@[k] == proof_base_spec(
                    *prover_params,
                    index as int,
                    skip_index(k, index as int),
                ) && scalars@[k] == t_of(
                    n as int,
                    skip_index(k, index as int),
                    values@[skip_index(k, index as int)]@,
                ),
            forall|k: int|
                0 <= k < bases@.len() ==> sel@.subrange(256 * k, 256 * k + 256) == g1_table256_of(
                    #[trigger] bases@[k],
                ),
        decreases l - j,
    {
        if j != index {
            let ghost old_sel = sel@;
            let ghost old_len = bases@.len() as int;
            let base;
            let mut chunk;
            if j < index {
                base = g1_clone(&prover_params.g1_alpha_nplus2_to_2n[index - j - 1]);
                chunk = table_chunk_256(table_gap, index - j - 1);
            } else {
                base = g1_clone(&prover_params.g1_alpha_1_to_n[n - (j - index)]);
                chunk = table_chunk_256(table_main, n - (j - index));
            }
            bases.push(base);
            let t = hash_t(n, j, &values[j]);
            scalars.push(t);
            let ghost chunk_view = chunk@;
            sel.append(&mut chunk);
            proof {
                assert forall|k: int| 0 <= k < old_len + 1 implies sel@.subrange(
                    256 * k,
                    256 * k + 256,
                ) == g1_table256_of(#[trigger] bases@[k]) by {
                    if k < old_len {
                        assert(sel@.subrange(256 * k, 256 * k + 256) =~= old_sel.subrange(
                            256 * k,
                            256 * k + 256,
                        ));
                    } else {
                        assert(sel@.subrange(256 * old_len, 256 * old_len + 256) =~= chunk_view);
                    }
                }
            }
        }
        j = j + 1;
    }
    proof {
        assert(bases@ =~= proof_bases_spec(*prover_params, index as int, l as int));
        assert(scalars@ =~= proof_scalars_spec(
            *prover_params,
            index as int,
            byte_views(values@),
        ));
    }
    let v = g1_msm_precomp_256(bases.as_slice(), scalars.as_slice(), sel.as_slice());
    Ok(Proof { ciphersuite: CIPHERSUITE, value: v })
}

/// Move a commitment to reflect one changed value, using a 3-bit-window table
/// built for the main G1 ladder. Same contract as `update_commitment`: the
/// result is bit-identical to the plain variant's.
pub fn update_commitment_with_precomp(
    prover_params: &PointproofsParams,
    table: &PrecompTable3,
    com: &Commitment,
    changed_index: usize,
    value_before: &Vec<u8>,
    value_after: &Vec<u8>,
) -> (r: Result<Commitment, PointproofsError>)
    requires
        prover_params.wf(),
        table.wf(),
        table.bases@ == prover_params.g1_alpha_1_to_n@,
    ensures
        changed_index >= prover_params.n ==> (r matches Err(e) && e
            == PointproofsError::IndexOutOfRange),
        changed_index < prover_params.n ==> (r matches Ok(c) && c == (Commitment {
            ciphersuite: com.ciphersuite,
            value: g1_add_of(
                com.value,
                g1_mul_of(
                    prover_params.g1_alpha_1_to_n@[prover_params.n - 1 - changed_index],
                    delta_t_spec(*prover_params, changed_index as int, value_before@, value_after@),
                ),
            ),
        })),
{
    let n = prover_params.n;
    if changed_index >= n {
        return Err(PointproofsError::IndexOutOfRange);
    }
    let t_before = hash_t(n, changed_index, value_before);
    let t_after = hash_t(n, changed_index, value_after);
    let delta = fr_sub(&t_after, &t_before);
    let slot: usize = n - 1 - changed_index;
    let mut pre: Vec<G1Affine> = Vec::new();
    let e0 = g1_clone(&table.table[3 * slot]);
    pre.push(e0);
    let e1 = g1_clone(&table.table[3 * slot + 1]);
    pre.push(e1);
    let e2 = g1_clone(&table.table[3 * slot + 2]);
    pre.push(e2);
    proof {
        assert(pre@ =~= table.table@.subrange(3 * (slot as int), 3 * (slot as int) + 3));
    }
    let step = g1_mul_precomp_3(&prover_params.g1_alpha_1_to_n[slot], &delta, pre.as_slice());
    let value = g1_add(&com.value, &step);
    Ok(Commitment { ciphersuite: com.ciphersuite, value })
}

} // verus!
