//! The commitment engine.
//!
//! A value vector of length `l <= n` is folded into one G1 element: each
//! occupied index `i` contributes its hash-derived scalar `t_i` on the ladder
//! slot at exponent `n - i`, and the commitment is the multi-scalar
//! multiplication of those slots by those scalars. The slot mapping is the
//! scheme's fixed convention; proof generation and verification use the same
//! mapping, and the pairing identity that `verify` checks depends on the two
//! sides agreeing exactly.
use vstd::prelude::*;

use crate::curve::{
    g1_clone, g1_deser_of, g1_msm_of, g1_read, g1_ser_of, g1_sum_of_products, g1_write,
    hash_fr_of, hash_to_fr,
};
use crate::errors::PointproofsError;
use crate::params::{PointproofsParams, MAX_CAPACITY};
use pairing_plus::bls12_381::{Fr, G1Affine};
use vstd::bytes::{spec_u32_to_le_bytes, u32_to_le_bytes};
use vstd::slice::slice_index_get;

verus! {

/// The one ciphersuite this library implements.
pub const CIPHERSUITE: u8 = 0;

/// The folded digest of a value vector under one parameter set.
#[derive(Debug, PartialEq)]
pub struct Commitment {
    /// Tag of the curve/hash parameter family the commitment was made under.
    pub ciphersuite: u8,
    /// The folded G1 element.
    pub value: G1Affine,
}

/// The views of a sequence of byte vectors.
pub open spec fn byte_views(vs: Seq<Vec<u8>>) -> Seq<Seq<u8>> {
    Seq::new(vs.len(), |i: int| vs[i]@)
}

/// The byte string hashed to derive index `i`'s scalar: the capacity, the
/// index, then the value, binding the scalar to all three.
pub open spec fn t_msg(n: int, i: int, v: Seq<u8>) -> Seq<u8> {
    spec_u32_to_le_bytes(n as u32) + spec_u32_to_le_bytes(i as u32) + v
}

/// Index `i`'s scalar weight: the hash-to-scalar derivation of its binding
/// message, domain-separated by the ciphersuite.
pub open spec fn t_of(n: int, i: int, v: Seq<u8>) -> Fr {
    hash_fr_of(t_msg(n, i, v), seq![CIPHERSUITE])
}

/// The ladder slots a vector of length `l` consumes: index `i` sits at
/// exponent `n - i`, the top of the ladder downward.
pub open spec fn commit_bases_spec(pp: PointproofsParams, l: int) -> Seq<G1Affine> {
    Seq::new(l as nat, |i: int| pp.g1_alpha_1_to_n@[pp.n - 1 - i])
}

/// The scalar weights of a value vector.
pub open spec fn commit_scalars_spec(pp: PointproofsParams, values: Seq<Seq<u8>>) -> Seq<Fr> {
    Seq::new(values.len(), |i: int| t_of(pp.n as int, i, values[i]))
}

/// The commitment's G1 element: the multi-scalar multiplication of the
/// consumed slots by the scalar weights.
pub open spec fn commit_value_spec(pp: PointproofsParams, values: Seq<Seq<u8>>) -> G1Affine {
    g1_msm_of(commit_bases_spec(pp, values.len() as int), commit_scalars_spec(pp, values))
}

/// Derive index `i`'s scalar weight for a vector of capacity `n`.
pub fn hash_t(n: usize, i: usize, value: &Vec<u8>) -> (r: Fr)
    requires
        n <= MAX_CAPACITY,
        i < n,
    ensures
        r == t_of(n as int, i as int, value@),
{
    let mut msg: Vec<u8> = u32_to_le_bytes(n as u32);
    let mut ibytes: Vec<u8> = u32_to_le_bytes(i as u32);
    msg.append(&mut ibytes);
    let ghost prefix: Seq<u8> = msg@;
    let mut j: usize = 0;
    while j < value.len()
        invariant
            j <= value@.len(),
            msg@ == prefix + value@.take(j as int),
        decreases value@.len() - j,
    {
        msg.push(value[j]);
        proof {
            assert(prefix + value@.take(j as int + 1) =~= (prefix + value@.take(j as int)).push(
                value@[j as int],
            ));
        }
        j = j + 1;
    }
    proof {
        assert(value@.take(value@.len() as int) =~= value@);
    }
    let mut dst: Vec<u8> = Vec::new();
    dst.push(CIPHERSUITE);
    proof {
        assert(dst@ =~= seq![CIPHERSUITE]);
    }
    hash_to_fr(msg.as_slice(), dst.as_slice())
}

impl Commitment {
    /// Serialize as one ciphersuite byte followed by the compressed G1
    /// element. Only the compressed mode exists; requesting the uncompressed
    /// mode is a usage error.
    pub fn serialize(&self, compressed: bool) -> (r: Result<Vec<u8>, PointproofsError>)
        ensures
            r matches Ok(b) ==> compressed && b@ == seq![self.ciphersuite] + g1_ser_of(self.value)
                && b@.len() == 49 && g1_deser_of(g1_ser_of(self.value)) == Some(self.value),
            r matches Err(e) ==> !compressed && e == PointproofsError::MalformedParameters,
            compressed ==> r is Ok,
    {
        if !compressed {
            return Err(PointproofsError::MalformedParameters);
        }
        let mut out: Vec<u8> = Vec::new();
        out.push(self.ciphersuite);
        g1_write(&self.value, &mut out);
        proof {
            assert(out@ =~= seq![self.ciphersuite] + g1_ser_of(self.value));
            assert(out@.skip(1) =~= g1_ser_of(self.value));
        }
        Ok(out)
    }

    /// Parse the wire form: exactly 49 bytes, a known ciphersuite tag, then a
    /// canonical point encoding; anything else — unknown tag, wrong length,
    /// invalid point — is rejected as malformed.
    pub fn deserialize(bytes: &[u8], compressed: bool) -> (r: Result<
        Commitment,
        PointproofsError,
    >)
        ensures
            r matches Ok(c) ==> compressed && c.ciphersuite == CIPHERSUITE && bytes@ == seq![
                CIPHERSUITE,
            ] + g1_ser_of(c.value),
            r matches Err(e) ==> e == PointproofsError::MalformedParameters,
            !compressed ==> r is Err,
            forall|c: Commitment|
                (compressed && c.ciphersuite == CIPHERSUITE && (#[trigger] g1_ser_of(
                    c.value,
                )).len() == 48 && g1_deser_of(g1_ser_of(c.value)) == Some(c.value) && bytes@ == seq![
                    CIPHERSUITE,
                ] + g1_ser_of(c.value)) ==> (r matches Ok(q) && q == c),
    {
        if !compressed {
            return Err(PointproofsError::MalformedParameters);
        }
        if bytes.len() != 49 {
            return Err(PointproofsError::MalformedParameters);
        }
        let tag = *slice_index_get(bytes, 0);
        if tag != CIPHERSUITE {
            return Err(PointproofsError::MalformedParameters);
        }
        match g1_read(bytes, 1) {
            Ok(pt) => {
                proof {
                    assert(bytes@ =~= seq![CIPHERSUITE] + g1_ser_of(pt));
                    assert forall|c: Commitment|
                        (c.ciphersuite == CIPHERSUITE && (#[trigger] g1_ser_of(c.value)).len()
                            == 48 && g1_deser_of(g1_ser_of(c.value)) == Some(c.value) && bytes@
                            == seq![CIPHERSUITE] + g1_ser_of(c.value)) implies c.value == pt by {
                        assert(bytes@.subrange(1, 49) =~= g1_ser_of(c.value));
                    }
                }
                Ok(Commitment { ciphersuite: CIPHERSUITE, value: pt })
            },
            Err(e) => {
                proof {
                    assert forall|c: Commitment|
                        !(c.ciphersuite == CIPHERSUITE && (#[trigger] g1_ser_of(c.value)).len()
                            == 48 && g1_deser_of(g1_ser_of(c.value)) == Some(c.value) && bytes@
                            == seq![CIPHERSUITE] + g1_ser_of(c.value)) by {
                        if g1_ser_of(c.value).len() == 48 && bytes@ == seq![CIPHERSUITE]
                            + g1_ser_of(c.value) {
                            assert(bytes@.subrange(1, 49) =~= g1_ser_of(c.value));
                        }
                    }
                }
                Err(e)
            },
        }
    }
}

/// Fold a value vector into a commitment. Pure in its inputs: the same
/// parameters and values always give the same commitment. Fails with
/// `CapacityExceeded` exactly when the vector is longer than the parameter
/// capacity; empty byte strings are valid values.
pub fn commit(prover_params: &PointproofsParams, values: &Vec<Vec<u8>>) -> (r: Result<
    Commitment,
    PointproofsError,
>)
    requires
        prover_params.wf(),
    ensures
        values@.len() > prover_params.n ==> (r matches Err(e) && e
            == PointproofsError::CapacityExceeded),
        values@.len() <= prover_params.n ==> (r matches Ok(c) && c == (Commitment {
            ciphersuite: CIPHERSUITE,
            value: commit_value_spec(*prover_params, byte_views(values@)),
        })),
{
    if values.len() > prover_params.n {
        return Err(PointproofsError::CapacityExceeded);
    }
    let l = values.len();
    let n = prover_params.n;
    let mut bases: Vec<G1Affine> = Vec::new();
    let mut scalars: Vec<Fr> = Vec::new();
    let mut i: usize = 0;
    while i < l
        invariant
            i <= l,
            l == values@.len(),
            l <= n,
            n == prover_params.n,
            prover_params.wf(),
            bases@.len() == i,
            scalars@.len() == i,
            forall|k: int|
                0 <= k < i ==> bases@[k] == prover_params.g1_alpha_1_to_n@[n - 1 - k]
                    && scalars@[k] == t_of(n as int, k, values@[k]@),
        decreases l - i,
    {
        let base = g1_clone(&prover_params.g1_alpha_1_to_n[n - 1 - i]);
        bases.push(base);
        let t = hash_t(n, i, &values[i]);
        scalars.push(t);
        i = i + 1;
    }
    proof {
        assert(bases@ =~= commit_bases_spec(*prover_params, l as int));
        assert(scalars@ =~= commit_scalars_spec(*prover_params, byte_views(values@)));
    }
    let c = g1_sum_of_products(bases.as_slice(), scalars.as_slice());
    Ok(Commitment { ciphersuite: CIPHERSUITE, value: c })
}

} // verus!
