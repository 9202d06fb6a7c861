use pointproofs::errors::PointproofsError;
use pointproofs::params::PointproofsParams;

fn seed() -> Vec<u8> {
    b"this is a test seed of 32 bytes!".to_vec()
}

#[test]
fn params_round_trip() {
    let (pp, _vp) = PointproofsParams::paramgen_from_seed(&seed(), 0, 4).unwrap();
    let bytes = pp.serialize(true).unwrap();
    assert_eq!(bytes.len(), 288 * 4 + 436);
    let back = PointproofsParams::deserialize(&bytes, true).unwrap();
    assert_eq!(back, pp);
}

#[test]
fn params_round_trip_n1() {
    let (pp, _vp) = PointproofsParams::paramgen_from_seed(&seed(), 0, 1).unwrap();
    let bytes = pp.serialize(true).unwrap();
    assert_eq!(bytes.len(), 288 + 436);
    let back = PointproofsParams::deserialize(&bytes, true).unwrap();
    assert_eq!(back, pp);
}

#[test]
fn truncated_params_rejected() {
    let (pp, _vp) = PointproofsParams::paramgen_from_seed(&seed(), 0, 2).unwrap();
    let bytes = pp.serialize(true).unwrap();
    for cut in [1usize, 48, 96, bytes.len() - 1] {
        let shorter = &bytes[..bytes.len() - cut];
        assert_eq!(
            PointproofsParams::deserialize(shorter, true).unwrap_err(),
            PointproofsError::MalformedParameters
        );
    }
    assert_eq!(
        PointproofsParams::deserialize(&bytes[..3], true).unwrap_err(),
        PointproofsError::MalformedParameters
    );
}

#[test]
fn padded_params_rejected() {
    let (pp, _vp) = PointproofsParams::paramgen_from_seed(&seed(), 0, 2).unwrap();
    let mut bytes = pp.serialize(true).unwrap();
    bytes.push(0u8);
    assert_eq!(
        PointproofsParams::deserialize(&bytes, true).unwrap_err(),
        PointproofsError::MalformedParameters
    );
}

#[test]
fn uncompressed_mode_rejected() {
    let (pp, _vp) = PointproofsParams::paramgen_from_seed(&seed(), 0, 2).unwrap();
    assert_eq!(
        pp.serialize(false).unwrap_err(),
        PointproofsError::MalformedParameters
    );
    let bytes = pp.serialize(true).unwrap();
    assert_eq!(
        PointproofsParams::deserialize(&bytes, false).unwrap_err(),
        PointproofsError::MalformedParameters
    );
}

#[test]
fn capacity_bounds_on_deserialize() {
    // n == 0 is rejected before anything else is read.
    let zero = [0u8, 0, 0, 0, 1, 2, 3];
    assert_eq!(
        PointproofsParams::deserialize(&zero, true).unwrap_err(),
        PointproofsError::MalformedParameters
    );
    // n == 70000 exceeds the ceiling.
    let big = 70000u32.to_le_bytes();
    assert_eq!(
        PointproofsParams::deserialize(&big, true).unwrap_err(),
        PointproofsError::MalformedParameters
    );
}

#[test]
fn paramgen_rejects_bad_capacity() {
    assert_eq!(
        PointproofsParams::paramgen_from_seed(&seed(), 0, 0).unwrap_err(),
        PointproofsError::InvalidCapacity
    );
    assert_eq!(
        PointproofsParams::paramgen_from_seed(&seed(), 0, 65536).unwrap_err(),
        PointproofsError::InvalidCapacity
    );
    assert_eq!(
        PointproofsParams::paramgen_random(0).unwrap_err(),
        PointproofsError::InvalidCapacity
    );
}

#[test]
fn paramgen_rejects_short_seed() {
    let short = b"not enough entropy".to_vec();
    assert_eq!(
        PointproofsParams::paramgen_from_seed(&short, 0, 2).unwrap_err(),
        PointproofsError::RandomnessFailure
    );
}

#[test]
fn paramgen_is_deterministic() {
    let (pp1, vp1) = PointproofsParams::paramgen_from_seed(&seed(), 0, 3).unwrap();
    let (pp2, vp2) = PointproofsParams::paramgen_from_seed(&seed(), 0, 3).unwrap();
    assert_eq!(pp1, pp2);
    assert_eq!(vp1, vp2);
    // A different seed gives different ladders.
    let other = b"another test seed of 32 bytes!!!".to_vec();
    let (pp3, _) = PointproofsParams::paramgen_from_seed(&other, 0, 3).unwrap();
    assert_ne!(pp1, pp3);
}

#[test]
fn verifier_params_are_projection() {
    let (pp, vp) = PointproofsParams::paramgen_from_seed(&seed(), 0, 3).unwrap();
    assert_eq!(vp.n, pp.n);
    assert_eq!(vp.g2_alpha_1_to_n, pp.g2_alpha_1_to_n);
    assert_eq!(vp.gt_alpha_nplus1, pp.gt_alpha_nplus1);
    assert_eq!(pp.g1_alpha_1_to_n.len(), 3);
    assert_eq!(pp.g1_alpha_nplus2_to_2n.len(), 2);
    assert_eq!(pp.g2_alpha_1_to_n.len(), 3);
    assert_eq!(pp.g2_alpha_nplus2_to_2n.len(), 2);
}
