//! The structured reference string and its wire format.
//!
//! A parameter set consists of two ladders of trapdoor powers in each source
//! group — exponents `1..=n` and `n+2..=2n`, deliberately skipping `n+1` —
//! and the pairing-target element at the skipped exponent. The wire format is
//! the 4-byte little-endian capacity followed by the four ladders and the
//! target element, every point in its canonical compressed encoding.
use vstd::prelude::*;

use crate::curve::{
    g1_deser_of, g1_read, g1_ser_of, g1_write, g2_deser_of, g2_read, g2_ser_of, g2_write,
    gt_deser_of, gt_read, gt_ser_of, gt_write,
};
use crate::errors::PointproofsError;
use pairing_plus::bls12_381::{Fq12, G1Affine, G2Affine};
use vstd::bytes::{
    lemma_auto_spec_u32_to_from_le_bytes, spec_u32_from_le_bytes, spec_u32_to_le_bytes,
    u32_from_le_bytes, u32_to_le_bytes,
};
use vstd::slice::slice_subrange;

verus! {

/// The largest capacity a parameter set may declare.
pub const MAX_CAPACITY: usize = 65535;

/// The prover-side structured reference string.
#[derive(Debug, PartialEq)]
pub struct PointproofsParams {
    /// Capacity bound: the longest value vector the parameters support.
    pub n: usize,
    /// `g1^{alpha}, ..., g1^{alpha^n}`.
    pub g1_alpha_1_to_n: Vec<G1Affine>,
    /// `g1^{alpha^{n+2}}, ..., g1^{alpha^{2n}}`.
    pub g1_alpha_nplus2_to_2n: Vec<G1Affine>,
    /// `g2^{alpha}, ..., g2^{alpha^n}`.
    pub g2_alpha_1_to_n: Vec<G2Affine>,
    /// `g2^{alpha^{n+2}}, ..., g2^{alpha^{2n}}`.
    pub g2_alpha_nplus2_to_2n: Vec<G2Affine>,
    /// `e(g1, g2)^{alpha^{n+1}}`: the gap exponent, present only in the
    /// target group.
    pub gt_alpha_nplus1: Fq12,
}

/// The compact verifier-side parameters: what opening-proof verification
/// needs, never the G1 ladders.
#[derive(Debug, PartialEq)]
pub struct VerifierParams {
    /// Capacity bound, equal to the prover side's.
    pub n: usize,
    /// `g2^{alpha}, ..., g2^{alpha^n}`.
    pub g2_alpha_1_to_n: Vec<G2Affine>,
    /// `e(g1, g2)^{alpha^{n+1}}`.
    pub gt_alpha_nplus1: Fq12,
}

/// Every element of the sequence has a 48-byte canonical encoding that
/// decodes back to it.
pub open spec fn g1_seq_canonical(s: Seq<G1Affine>) -> bool {
    forall|i: int|
        0 <= i < s.len() ==> (#[trigger] g1_ser_of(s[i])).len() == 48 && g1_deser_of(
            g1_ser_of(s[i]),
        ) == Some(s[i])
}

/// Every element of the sequence has a 96-byte canonical encoding that
/// decodes back to it.
pub open spec fn g2_seq_canonical(s: Seq<G2Affine>) -> bool {
    forall|i: int|
        0 <= i < s.len() ==> (#[trigger] g2_ser_of(s[i])).len() == 96 && g2_deser_of(
            g2_ser_of(s[i]),
        ) == Some(s[i])
}

/// The concatenated canonical encodings of a sequence of G1 points.
pub open spec fn ser_g1_seq(s: Seq<G1Affine>) -> Seq<u8>
    decreases s.len(),
{
    if s.len() == 0 {
        Seq::empty()
    } else {
        ser_g1_seq(s.drop_last()) + g1_ser_of(s.last())
    }
}

/// The concatenated canonical encodings of a sequence of G2 points.
pub open spec fn ser_g2_seq(s: Seq<G2Affine>) -> Seq<u8>
    decreases s.len(),
{
    if s.len() == 0 {
        Seq::empty()
    } else {
        ser_g2_seq(s.drop_last()) + g2_ser_of(s.last())
    }
}

/// Field-by-field equality of two parameter sets, at the level of views.
pub open spec fn same_params(a: PointproofsParams, b: PointproofsParams) -> bool {
    &&& a.n == b.n
    &&& a.g1_alpha_1_to_n@ == b.g1_alpha_1_to_n@
    &&& a.g1_alpha_nplus2_to_2n@ == b.g1_alpha_nplus2_to_2n@
    &&& a.g2_alpha_1_to_n@ == b.g2_alpha_1_to_n@
    &&& a.g2_alpha_nplus2_to_2n@ == b.g2_alpha_nplus2_to_2n@
    &&& a.gt_alpha_nplus1 == b.gt_alpha_nplus1
}

impl PointproofsParams {
    /// Structural invariant: the capacity is in range and every ladder has
    /// exactly its declared length.
    pub open spec fn wf(self) -> bool {
        &&& 1 <= self.n <= MAX_CAPACITY
        &&& self.g1_alpha_1_to_n@.len() == self.n
        &&& self.g1_alpha_nplus2_to_2n@.len() == self.n - 1
        &&& self.g2_alpha_1_to_n@.len() == self.n
        &&& self.g2_alpha_nplus2_to_2n@.len() == self.n - 1
    }

    /// Every ladder entry and the target element encode canonically.
    pub open spec fn canonical(self) -> bool {
        &&& g1_seq_canonical(self.g1_alpha_1_to_n@)
        &&& g1_seq_canonical(self.g1_alpha_nplus2_to_2n@)
        &&& g2_seq_canonical(self.g2_alpha_1_to_n@)
        &&& g2_seq_canonical(self.g2_alpha_nplus2_to_2n@)
        &&& gt_ser_of(self.gt_alpha_nplus1).len() == 576
        &&& gt_deser_of(gt_ser_of(self.gt_alpha_nplus1)) == Some(self.gt_alpha_nplus1)
    }

    /// The exact wire image of the parameter set.
    pub open spec fn spec_bytes(self) -> Seq<u8> {
        spec_u32_to_le_bytes(self.n as u32) + ser_g1_seq(self.g1_alpha_1_to_n@) + ser_g1_seq(
            self.g1_alpha_nplus2_to_2n@,
        ) + ser_g2_seq(self.g2_alpha_1_to_n@) + ser_g2_seq(self.g2_alpha_nplus2_to_2n@)
            + gt_ser_of(self.gt_alpha_nplus1)
    }
}

impl VerifierParams {
    /// Structural invariant of the verifier-side parameters.
    pub open spec fn wf(self) -> bool {
        &&& 1 <= self.n <= MAX_CAPACITY
        &&& self.g2_alpha_1_to_n@.len() == self.n
    }
}

/// Length of the concatenated G1 encodings: 48 bytes per point.
pub proof fn lemma_ser_g1_len(s: Seq<G1Affine>)
    requires
        g1_seq_canonical(s),
    ensures
        ser_g1_seq(s).len() == 48 * s.len(),
    decreases s.len(),
{
    if s.len() > 0 {
        assert forall|i: int| 0 <= i < s.drop_last().len() implies (#[trigger] g1_ser_of(
            s.drop_last()[i],
        )).len() == 48 && g1_deser_of(g1_ser_of(s.drop_last()[i])) == Some(s.drop_last()[i]) by {
            assert(s.drop_last()[i] == s[i]);
        }
        lemma_ser_g1_len(s.drop_last());
    }
}

/// Length of the concatenated G2 encodings: 96 bytes per point.
pub proof fn lemma_ser_g2_len(s: Seq<G2Affine>)
    requires
        g2_seq_canonical(s),
    ensures
        ser_g2_seq(s).len() == 96 * s.len(),
    decreases s.len(),
{
    if s.len() > 0 {
        assert forall|i: int| 0 <= i < s.drop_last().len() implies (#[trigger] g2_ser_of(
            s.drop_last()[i],
        )).len() == 96 && g2_deser_of(g2_ser_of(s.drop_last()[i])) == Some(s.drop_last()[i]) by {
            assert(s.drop_last()[i] == s[i]);
        }
        lemma_ser_g2_len(s.drop_last());
    }
}

/// Appending one point to a prefix extends its concatenated encoding by that
/// point's encoding.
pub proof fn lemma_ser_g1_push(s: Seq<G1Affine>, p: G1Affine)
    ensures
        ser_g1_seq(s.push(p)) == ser_g1_seq(s) + g1_ser_of(p),
{
    assert(s.push(p).drop_last() =~= s);
    assert(s.push(p).last() == p);
}

/// Appending one point to a prefix extends its concatenated encoding by that
/// point's encoding.
pub proof fn lemma_ser_g2_push(s: Seq<G2Affine>, p: G2Affine)
    ensures
        ser_g2_seq(s.push(p)) == ser_g2_seq(s) + g2_ser_of(p),
{
    assert(s.push(p).drop_last() =~= s);
    assert(s.push(p).last() == p);
}

/// The slice of the concatenated G1 encodings at point `i` is that point's
/// encoding.
pub proof fn lemma_ser_g1_seg(s: Seq<G1Affine>, i: int)
    requires
        g1_seq_canonical(s),
        0 <= i < s.len(),
    ensures
        ser_g1_seq(s).subrange(48 * i, 48 * i + 48) == g1_ser_of(s[i]),
    decreases s.len(),
{
    lemma_ser_g1_len(s);
    assert forall|j: int| 0 <= j < s.drop_last().len() implies (#[trigger] g1_ser_of(
        s.drop_last()[j],
    )).len() == 48 && g1_deser_of(g1_ser_of(s.drop_last()[j])) == Some(s.drop_last()[j]) by {
        assert(s.drop_last()[j] == s[j]);
    }
    lemma_ser_g1_len(s.drop_last());
    if i == s.len() - 1 {
        assert(ser_g1_seq(s).subrange(48 * i, 48 * i + 48) =~= g1_ser_of(s.last()));
    } else {
        lemma_ser_g1_seg(s.drop_last(), i);
        assert(ser_g1_seq(s).subrange(48 * i, 48 * i + 48) =~= ser_g1_seq(
            s.drop_last(),
        ).subrange(48 * i, 48 * i + 48));
    }
}

/// The slice of the concatenated G2 encodings at point `i` is that point's
/// encoding.
pub proof fn lemma_ser_g2_seg(s: Seq<G2Affine>, i: int)
    requires
        g2_seq_canonical(s),
        0 <= i < s.len(),
    ensures
        ser_g2_seq(s).subrange(96 * i, 96 * i + 96) == g2_ser_of(s[i]),
    decreases s.len(),
{
    lemma_ser_g2_len(s);
    assert forall|j: int| 0 <= j < s.drop_last().len() implies (#[trigger] g2_ser_of(
        s.drop_last()[j],
    )).len() == 96 && g2_deser_of(g2_ser_of(s.drop_last()[j])) == Some(s.drop_last()[j]) by {
        assert(s.drop_last()[j] == s[j]);
    }
    lemma_ser_g2_len(s.drop_last());
    if i == s.len() - 1 {
        assert(ser_g2_seq(s).subrange(96 * i, 96 * i + 96) =~= g2_ser_of(s.last()));
    } else {
        lemma_ser_g2_seg(s.drop_last(), i);
        assert(ser_g2_seq(s).subrange(96 * i, 96 * i + 96) =~= ser_g2_seq(
            s.drop_last(),
        ).subrange(96 * i, 96 * i + 96));
    }
}

/// Where each section of the wire image sits: its total length and the
/// subrange each ladder occupies.
pub proof fn lemma_spec_bytes_sections(p: PointproofsParams)
    requires
        p.wf(),
        p.canonical(),
    ensures
        p.spec_bytes().len() == 288 * p.n + 436,
        p.spec_bytes().subrange(0, 4) == spec_u32_to_le_bytes(p.n as u32),
        p.spec_bytes().subrange(4, 4 + 48 * (p.n as int)) == ser_g1_seq(p.g1_alpha_1_to_n@),
        p.spec_bytes().subrange(4 + 48 * (p.n as int), 4 + 96 * (p.n as int) - 48) == ser_g1_seq(
            p.g1_alpha_nplus2_to_2n@,
        ),
        p.spec_bytes().subrange(4 + 96 * (p.n as int) - 48, 4 + 192 * (p.n as int) - 48)
            == ser_g2_seq(p.g2_alpha_1_to_n@),
        p.spec_bytes().subrange(4 + 192 * (p.n as int) - 48, 4 + 288 * (p.n as int) - 144)
            == ser_g2_seq(p.g2_alpha_nplus2_to_2n@),
        p.spec_bytes().subrange(4 + 288 * (p.n as int) - 144, 288 * (p.n as int) + 436)
            == gt_ser_of(p.gt_alpha_nplus1),
{
    lemma_auto_spec_u32_to_from_le_bytes();
    lemma_ser_g1_len(p.g1_alpha_1_to_n@);
    lemma_ser_g1_len(p.g1_alpha_nplus2_to_2n@);
    lemma_ser_g2_len(p.g2_alpha_1_to_n@);
    lemma_ser_g2_len(p.g2_alpha_nplus2_to_2n@);
    assert(p.spec_bytes().subrange(0, 4) =~= spec_u32_to_le_bytes(p.n as u32));
    assert(p.spec_bytes().subrange(4, 4 + 48 * (p.n as int)) =~= ser_g1_seq(p.g1_alpha_1_to_n@));
    assert(p.spec_bytes().subrange(4 + 48 * (p.n as int), 4 + 96 * (p.n as int) - 48)
        =~= ser_g1_seq(p.g1_alpha_nplus2_to_2n@));
    assert(p.spec_bytes().subrange(4 + 96 * (p.n as int) - 48, 4 + 192 * (p.n as int) - 48)
        =~= ser_g2_seq(p.g2_alpha_1_to_n@));
    assert(p.spec_bytes().subrange(4 + 192 * (p.n as int) - 48, 4 + 288 * (p.n as int) - 144)
        =~= ser_g2_seq(p.g2_alpha_nplus2_to_2n@));
    assert(p.spec_bytes().subrange(4 + 288 * (p.n as int) - 144, 288 * (p.n as int) + 436)
        =~= gt_ser_of(p.gt_alpha_nplus1));
}

impl PointproofsParams {
    /// Serialize into the wire format. Only the compressed mode exists;
    /// requesting the uncompressed mode is a usage error. On success the
    /// output is exactly the wire image of this parameter set.
    pub fn serialize(&self, compressed: bool) -> (r: Result<Vec<u8>, PointproofsError>)
        requires
            self.wf(),
        ensures
            r matches Ok(b) ==> compressed && b@ == self.spec_bytes() && self.canonical(),
            r matches Err(e) ==> !compressed && e == PointproofsError::MalformedParameters,
            compressed ==> r is Ok,
    {
        if !compressed {
            return Err(PointproofsError::MalformedParameters);
        }
        let mut out: Vec<u8> = u32_to_le_bytes(self.n as u32);
        let ghost header: Seq<u8> = out@;
        let mut i: usize = 0;
        while i < self.g1_alpha_1_to_n.len()
            invariant
                self.wf(),
                i <= self.g1_alpha_1_to_n@.len(),
                g1_seq_canonical(self.g1_alpha_1_to_n@.take(i as int)),
                out@ == header + ser_g1_seq(self.g1_alpha_1_to_n@.take(i as int)),
            decreases self.g1_alpha_1_to_n@.len() - i,
        {
            let ghost before = out@;
            g1_write(&self.g1_alpha_1_to_n[i], &mut out);
            proof {
                let pt = self.g1_alpha_1_to_n@[i as int];
                assert(out@.skip(before.len() as int) =~= g1_ser_of(pt));
                lemma_ser_g1_push(self.g1_alpha_1_to_n@.take(i as int), pt);
                assert(self.g1_alpha_1_to_n@.take(i as int).push(pt) =~= self.g1_alpha_1_to_n@.take(
                    i as int + 1,
                ));
            }
            i = i + 1;
        }
        proof {
            assert(self.g1_alpha_1_to_n@.take(i as int) =~= self.g1_alpha_1_to_n@);
        }
        let ghost done1: Seq<u8> = out@;
        let mut i: usize = 0;
        while i < self.g1_alpha_nplus2_to_2n.len()
            invariant
                self.wf(),
                i <= self.g1_alpha_nplus2_to_2n@.len(),
                g1_seq_canonical(self.g1_alpha_nplus2_to_2n@.take(i as int)),
                out@ == done1 + ser_g1_seq(self.g1_alpha_nplus2_to_2n@.take(i as int)),
            decreases self.g1_alpha_nplus2_to_2n@.len() - i,
        {
            let ghost before = out@;
            g1_write(&self.g1_alpha_nplus2_to_2n[i], &mut out);
            proof {
                let pt = self.g1_alpha_nplus2_to_2n@[i as int];
                assert(out@.skip(before.len() as int) =~= g1_ser_of(pt));
                lemma_ser_g1_push(self.g1_alpha_nplus2_to_2n@.take(i as int), pt);
                assert(self.g1_alpha_nplus2_to_2n@.take(i as int).push(pt)
                    =~= self.g1_alpha_nplus2_to_2n@.take(i as int + 1));
            }
            i = i + 1;
        }
        proof {
            assert(self.g1_alpha_nplus2_to_2n@.take(i as int) =~= self.g1_alpha_nplus2_to_2n@);
        }
        let ghost done2: Seq<u8> = out@;
        let mut i: usize = 0;
        while i < self.g2_alpha_1_to_n.len()
            invariant
                self.wf(),
                i <= self.g2_alpha_1_to_n@.len(),
                g2_seq_canonical(self.g2_alpha_1_to_n@.take(i as int)),
                out@ == done2 + ser_g2_seq(self.g2_alpha_1_to_n@.take(i as int)),
            decreases self.g2_alpha_1_to_n@.len() - i,
        {
            let ghost before = out@;
            g2_write(&self.g2_alpha_1_to_n[i], &mut out);
            proof {
                let pt = self.g2_alpha_1_to_n@[i as int];
                assert(out@.skip(before.len() as int) =~= g2_ser_of(pt));
                lemma_ser_g2_push(self.g2_alpha_1_to_n@.take(i as int), pt);
                assert(self.g2_alpha_1_to_n@.take(i as int).push(pt) =~= self.g2_alpha_1_to_n@.take(
                    i as int + 1,
                ));
            }
            i = i + 1;
        }
        proof {
            assert(self.g2_alpha_1_to_n@.take(i as int) =~= self.g2_alpha_1_to_n@);
        }
        let ghost done3: Seq<u8> = out@;
        let mut i: usize = 0;
        while i < self.g2_alpha_nplus2_to_2n.len()
            invariant
                self.wf(),
                i <= self.g2_alpha_nplus2_to_2n@.len(),
                g2_seq_canonical(self.g2_alpha_nplus2_to_2n@.take(i as int)),
                out@ == done3 + ser_g2_seq(self.g2_alpha_nplus2_to_2n@.take(i as int)),
            decreases self.g2_alpha_nplus2_to_2n@.len() - i,
        {
            let ghost before = out@;
            g2_write(&self.g2_alpha_nplus2_to_2n[i], &mut out);
            proof {
                let pt = self.g2_alpha_nplus2_to_2n@[i as int];
                assert(out@.skip(before.len() as int) =~= g2_ser_of(pt));
                lemma_ser_g2_push(self.g2_alpha_nplus2_to_2n@.take(i as int), pt);
                assert(self.g2_alpha_nplus2_to_2n@.take(i as int).push(pt)
                    =~= self.g2_alpha_nplus2_to_2n@.take(i as int + 1));
            }
            i = i + 1;
        }
        proof {
            assert(self.g2_alpha_nplus2_to_2n@.take(i as int) =~= self.g2_alpha_nplus2_to_2n@);
        }
        let ghost done4: Seq<u8> = out@;
        gt_write(&self.gt_alpha_nplus1, &mut out);
        proof {
            assert(out@.skip(done4.len() as int) =~= gt_ser_of(self.gt_alpha_nplus1));
            assert(out@ =~= self.spec_bytes());
        }
        Ok(out)
    }

    /// Parse the wire format. Accepts exactly the wire images of well-formed
    /// parameter sets: the capacity must be in range, the total length must
    /// match it exactly, and every point must decode; truncated or padded
    /// input is rejected. Parsing the wire image of a canonical parameter set
    /// returns that very set.
    #[verifier::rlimit(100)]
    pub fn deserialize(bytes: &[u8], compressed: bool) -> (r: Result<
        PointproofsParams,
        PointproofsError,
    >)
        ensures
            r matches Ok(q) ==> compressed && q.wf() && q.canonical() && bytes@ == q.spec_bytes(),
            r matches Err(e) ==> e == PointproofsError::MalformedParameters,
            !compressed ==> r is Err,
            forall|p: PointproofsParams|
                (compressed && p.wf() && p.canonical() && bytes@ == #[trigger] p.spec_bytes())
                    ==> (r matches Ok(q) && same_params(q, p)),
    {
        if !compressed {
            return Err(PointproofsError::MalformedParameters);
        }
        proof {
            lemma_auto_spec_u32_to_from_le_bytes();
        }
        if bytes.len() < 4 {
            proof {
                assert forall|p: PointproofsParams|
                    !(compressed && p.wf() && p.canonical() && bytes@
                        == #[trigger] p.spec_bytes()) by {
                    if p.wf() && p.canonical() {
                        lemma_spec_bytes_sections(p);
                    }
                }
            }
            return Err(PointproofsError::MalformedParameters);
        }
        let n32 = u32_from_le_bytes(slice_subrange(bytes, 0, 4));
        let n = n32 as usize;
        proof {
            assert forall|p: PointproofsParams|
                (p.wf() && p.canonical() && bytes@ == #[trigger] p.spec_bytes()) implies p.n
                == n by {
                lemma_spec_bytes_sections(p);
                assert(bytes@.subrange(0, 4) == spec_u32_to_le_bytes(p.n as u32));
                assert(spec_u32_from_le_bytes(spec_u32_to_le_bytes(p.n as u32)) == p.n as u32);
            }
        }
        if n == 0 || n > MAX_CAPACITY {
            return Err(PointproofsError::MalformedParameters);
        }
        let expected: usize = 288 * n + 436;
        if bytes.len() != expected {
            proof {
                assert forall|p: PointproofsParams|
                    !(compressed && p.wf() && p.canonical() && bytes@
                        == #[trigger] p.spec_bytes()) by {
                    if p.wf() && p.canonical() {
                        lemma_spec_bytes_sections(p);
                    }
                }
            }
            return Err(PointproofsError::MalformedParameters);
        }
        let mut pos: usize = 4;
        let mut g1_main: Vec<G1Affine> = Vec::new();
        let mut i: usize = 0;
        while i < n
            invariant
                n >= 1,
                n <= MAX_CAPACITY,
                i <= n,
                pos == 4 + 48 * i,
                bytes@.len() == 288 * n + 436,
                g1_main@.len() == i,
                g1_seq_canonical(g1_main@),
                ser_g1_seq(g1_main@) == bytes@.subrange(4, pos as int),
                forall|p: PointproofsParams|
                    (p.wf() && p.canonical() && bytes@ == #[trigger] p.spec_bytes()) ==> p.n == n,
            decreases n - i,
        {
            let pt = match g1_read(bytes, pos) {
                Ok(pt) => pt,
                Err(e) => {
                    proof {
                        assert forall|p: PointproofsParams|
                            !(p.wf() && p.canonical() && bytes@ == #[trigger] p.spec_bytes()) by {
                            if p.wf() && p.canonical() && bytes@ == p.spec_bytes() {
                                lemma_spec_bytes_sections(p);
                                lemma_ser_g1_seg(p.g1_alpha_1_to_n@, i as int);
                                assert(bytes@.subrange(pos as int, pos as int + 48)
                                    =~= ser_g1_seq(p.g1_alpha_1_to_n@).subrange(
                                    48 * (i as int),
                                    48 * (i as int) + 48,
                                ));
                            }
                        }
                    }
                    return Err(e);
                },
            };
            proof {
                lemma_ser_g1_push(g1_main@, pt);
                assert(bytes@.subrange(4, pos as int + 48) =~= bytes@.subrange(4, pos as int)
                    + bytes@.subrange(pos as int, pos as int + 48));
                assert(g1_seq_canonical(g1_main@.push(pt)));
            }
            g1_main.push(pt);
            pos = pos + 48;
            i = i + 1;
        }
        let ghost off1: int = pos as int;
        let mut g1_gap: Vec<G1Affine> = Vec::new();
        let mut i: usize = 0;
        while i < n - 1
            invariant
                n >= 1,
                n <= MAX_CAPACITY,
                i <= n - 1,
                off1 == 4 + 48 * n,
                pos == off1 + 48 * i,
                bytes@.len() == 288 * n + 436,
                g1_gap@.len() == i,
                g1_seq_canonical(g1_gap@),
                ser_g1_seq(g1_gap@) == bytes@.subrange(off1, pos as int),
                forall|p: PointproofsParams|
                    (p.wf() && p.canonical() && bytes@ == #[trigger] p.spec_bytes()) ==> p.n == n,
            decreases n - 1 - i,
        {
            let pt = match g1_read(bytes, pos) {
                Ok(pt) => pt,
                Err(e) => {
                    proof {
                        assert forall|p: PointproofsParams|
                            !(p.wf() && p.canonical() && bytes@ == #[trigger] p.spec_bytes()) by {
                            if p.wf() && p.canonical() && bytes@ == p.spec_bytes() {
                                lemma_spec_bytes_sections(p);
                                lemma_ser_g1_seg(p.g1_alpha_nplus2_to_2n@, i as int);
                                assert(bytes@.subrange(pos as int, pos as int + 48)
                                    =~= ser_g1_seq(p.g1_alpha_nplus2_to_2n@).subrange(
                                    48 * (i as int),
                                    48 * (i as int) + 48,
                                ));
                            }
                        }
                    }
                    return Err(e);
                },
            };
            proof {
                lemma_ser_g1_push(g1_gap@, pt);
                assert(bytes@.subrange(off1, pos as int + 48) =~= bytes@.subrange(off1, pos as int)
                    + bytes@.subrange(pos as int, pos as int + 48));
                assert(g1_seq_canonical(g1_gap@.push(pt)));
            }
            g1_gap.push(pt);
            pos = pos + 48;
            i = i + 1;
        }
        let ghost off2: int = pos as int;
        let mut g2_main: Vec<G2Affine> = Vec::new();
        let mut i: usize = 0;
        while i < n
            invariant
                n >= 1,
                n <= MAX_CAPACITY,
                i <= n,
                off2 == 4 + 96 * n - 48,
                pos == off2 + 96 * i,
                bytes@.len() == 288 * n + 436,
                g2_main@.len() == i,
                g2_seq_canonical(g2_main@),
                ser_g2_seq(g2_main@) == bytes@.subrange(off2, pos as int),
                forall|p: PointproofsParams|
                    (p.wf() && p.canonical() && bytes@ == #[trigger] p.spec_bytes()) ==> p.n == n,
            decreases n - i,
        {
            let pt = match g2_read(bytes, pos) {
                Ok(pt) => pt,
                Err(e) => {
                    proof {
                        assert forall|p: PointproofsParams|
                            !(p.wf() && p.canonical() && bytes@ == #[trigger] p.spec_bytes()) by {
                            if p.wf() && p.canonical() && bytes@ == p.spec_bytes() {
                                lemma_spec_bytes_sections(p);
                                lemma_ser_g2_seg(p.g2_alpha_1_to_n@, i as int);
                                assert(bytes@.subrange(pos as int, pos as int + 96)
                                    =~= ser_g2_seq(p.g2_alpha_1_to_n@).subrange(
                                    96 * (i as int),
                                    96 * (i as int) + 96,
                                ));
                            }
                        }
                    }
                    return Err(e);
                },
            };
            proof {
                lemma_ser_g2_push(g2_main@, pt);
                assert(bytes@.subrange(off2, pos as int + 96) =~= bytes@.subrange(off2, pos as int)
                    + bytes@.subrange(pos as int, pos as int + 96));
                assert(g2_seq_canonical(g2_main@.push(pt)));
            }
            g2_main.push(pt);
            pos = pos + 96;
            i = i + 1;
        }
        let ghost off3: int = pos as int;
        let mut g2_gap: Vec<G2Affine> = Vec::new();
        let mut i: usize = 0;
        while i < n - 1
            invariant
                n >= 1,
                n <= MAX_CAPACITY,
                i <= n - 1,
                off3 == 4 + 192 * n - 48,
                pos == off3 + 96 * i,
                bytes@.len() == 288 * n + 436,
                g2_gap@.len() == i,
                g2_seq_canonical(g2_gap@),
                ser_g2_seq(g2_gap@) == bytes@.subrange(off3, pos as int),
                forall|p: PointproofsParams|
                    (p.wf() && p.canonical() && bytes@ == #[trigger] p.spec_bytes()) ==> p.n == n,
            decreases n - 1 - i,
        {
            let pt = match g2_read(bytes, pos) {
                Ok(pt) => pt,
                Err(e) => {
                    proof {
                        assert forall|p: PointproofsParams|
                            !(p.wf() && p.canonical() && bytes@ == #[trigger] p.spec_bytes()) by {
                            if p.wf() && p.canonical() && bytes@ == p.spec_bytes() {
                                lemma_spec_bytes_sections(p);
                                lemma_ser_g2_seg(p.g2_alpha_nplus2_to_2n@, i as int);
                                assert(bytes@.subrange(pos as int, pos as int + 96)
                                    =~= ser_g2_seq(p.g2_alpha_nplus2_to_2n@).subrange(
                                    96 * (i as int),
                                    96 * (i as int) + 96,
                                ));
                            }
                        }
                    }
                    return Err(e);
                },
            };
            proof {
                lemma_ser_g2_push(g2_gap@, pt);
                assert(bytes@.subrange(off3, pos as int + 96) =~= bytes@.subrange(off3, pos as int)
                    + bytes@.subrange(pos as int, pos as int + 96));
                assert(g2_seq_canonical(g2_gap@.push(pt)));
            }
            g2_gap.push(pt);
            pos = pos + 96;
            i = i + 1;
        }
        let ghost off4: int = pos as int;
        let gt = match gt_read(bytes, pos) {
            Ok(a) => a,
            Err(e) => {
                proof {
                    assert forall|p: PointproofsParams|
                        !(p.wf() && p.canonical() && bytes@ == #[trigger] p.spec_bytes()) by {
                        if p.wf() && p.canonical() && bytes@ == p.spec_bytes() {
                            lemma_spec_bytes_sections(p);
                        }
                    }
                }
                return Err(e);
            },
        };
        let result = PointproofsParams {
            n,
            g1_alpha_1_to_n: g1_main,
            g1_alpha_nplus2_to_2n: g1_gap,
            g2_alpha_1_to_n: g2_main,
            g2_alpha_nplus2_to_2n: g2_gap,
            gt_alpha_nplus1: gt,
        };
        proof {
            assert(bytes@ =~= result.spec_bytes()) by {
                lemma_spec_bytes_sections(result);
                assert(bytes@.subrange(0, 4) == spec_u32_to_le_bytes(result.n as u32));
                assert(bytes@ =~= bytes@.subrange(0, 4) + bytes@.subrange(4, off1)
                    + bytes@.subrange(off1, off2) + bytes@.subrange(off2, off3) + bytes@.subrange(
                    off3,
                    off4,
                ) + bytes@.subrange(off4, off4 + 576));
            }
            assert forall|p: PointproofsParams|
                (p.wf() && p.canonical() && bytes@ == #[trigger] p.spec_bytes()) implies
                same_params(result, p) by {
                lemma_spec_bytes_sections(p);
                lemma_spec_bytes_sections(result);
                assert forall|j: int| 0 <= j < n implies p.g1_alpha_1_to_n@[j]
                    == result.g1_alpha_1_to_n@[j] by {
                    lemma_ser_g1_seg(p.g1_alpha_1_to_n@, j);
                    lemma_ser_g1_seg(result.g1_alpha_1_to_n@, j);
                }
                assert(p.g1_alpha_1_to_n@ =~= result.g1_alpha_1_to_n@);
                assert forall|j: int| 0 <= j < n - 1 implies p.g1_alpha_nplus2_to_2n@[j]
                    == result.g1_alpha_nplus2_to_2n@[j] by {
                    lemma_ser_g1_seg(p.g1_alpha_nplus2_to_2n@, j);
                    lemma_ser_g1_seg(result.g1_alpha_nplus2_to_2n@, j);
                }
                assert(p.g1_alpha_nplus2_to_2n@ =~= result.g1_alpha_nplus2_to_2n@);
                assert forall|j: int| 0 <= j < n implies p.g2_alpha_1_to_n@[j]
                    == result.g2_alpha_1_to_n@[j] by {
                    lemma_ser_g2_seg(p.g2_alpha_1_to_n@, j);
                    lemma_ser_g2_seg(result.g2_alpha_1_to_n@, j);
                }
                assert(p.g2_alpha_1_to_n@ =~= result.g2_alpha_1_to_n@);
                assert forall|j: int| 0 <= j < n - 1 implies p.g2_alpha_nplus2_to_2n@[j]
                    == result.g2_alpha_nplus2_to_2n@[j] by {
                    lemma_ser_g2_seg(p.g2_alpha_nplus2_to_2n@, j);
                    lemma_ser_g2_seg(result.g2_alpha_nplus2_to_2n@, j);
                }
                assert(p.g2_alpha_nplus2_to_2n@ =~= result.g2_alpha_nplus2_to_2n@);
                assert(p.gt_alpha_nplus1 == result.gt_alpha_nplus1);
            }
        }
        Ok(result)
    }
}

} // verus!
