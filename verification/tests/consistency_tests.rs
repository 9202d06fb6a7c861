use ff_zeroize::{Field, PrimeField};
use pairing_plus::bls12_381::{Fr, FrRepr, G1Affine, G2Affine};
use pairing_plus::{CurveAffine, CurveProjective};
use pointproofs::consistency::{consistent, consistent_with_coins};
use pointproofs::params::PointproofsParams;

fn seed() -> Vec<u8> {
    b"this is a test seed of 32 bytes!".to_vec()
}

fn honest(n: usize) -> PointproofsParams {
    PointproofsParams::paramgen_from_seed(&seed(), 0, n).unwrap().0
}

/// An arbitrary valid group element unrelated to the honest ladders.
fn stray_g1() -> G1Affine {
    G1Affine::one()
        .mul(Fr::from_repr(FrRepr([12345, 0, 0, 0])).unwrap())
        .into_affine()
}

fn stray_g2() -> G2Affine {
    G2Affine::one()
        .mul(Fr::from_repr(FrRepr([54321, 0, 0, 0])).unwrap())
        .into_affine()
}

#[test]
fn consistent_accepts_honest_n1() {
    assert!(consistent(&honest(1)));
}

#[test]
fn consistent_accepts_honest_n2() {
    assert!(consistent(&honest(2)));
}

#[test]
fn consistent_accepts_honest_n64() {
    // A larger capacity than the scheme's unit cases; kept small enough for
    // an unoptimized build.
    assert!(consistent(&honest(64)));
}

#[test]
fn consistent_with_fixed_coins_accepts_honest() {
    let pp = honest(4);
    let coins = vec![Fr::one(); 4];
    assert!(consistent_with_coins(&pp, &coins));
}

#[test]
fn tampered_g1_main_rejected() {
    let mut pp = honest(4);
    pp.g1_alpha_1_to_n[1] = stray_g1();
    assert!(!consistent(&pp));
}

#[test]
fn tampered_g1_gap_rejected() {
    let mut pp = honest(4);
    pp.g1_alpha_nplus2_to_2n[2] = stray_g1();
    assert!(!consistent(&pp));
}

#[test]
fn tampered_g2_main_rejected() {
    let mut pp = honest(4);
    pp.g2_alpha_1_to_n[3] = stray_g2();
    assert!(!consistent(&pp));
}

#[test]
fn tampered_g2_gap_rejected() {
    let mut pp = honest(4);
    pp.g2_alpha_nplus2_to_2n[0] = stray_g2();
    assert!(!consistent(&pp));
}

#[test]
fn tampered_gt_rejected() {
    let mut pp = honest(4);
    pp.gt_alpha_nplus1 = G1Affine::one().pairing_with(&G2Affine::one());
    assert!(!consistent(&pp));
}

#[test]
fn identity_entry_rejected() {
    let mut pp = honest(4);
    pp.g1_alpha_1_to_n[0] = G1Affine::zero();
    assert!(!consistent(&pp));
}

#[test]
fn generator_entry_rejected() {
    let mut pp = honest(4);
    pp.g2_alpha_1_to_n[2] = G2Affine::one();
    assert!(!consistent(&pp));
}
