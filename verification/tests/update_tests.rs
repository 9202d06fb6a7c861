use pointproofs::commit::commit;
use pointproofs::errors::PointproofsError;
use pointproofs::params::PointproofsParams;
use pointproofs::prove::{prove, verify, Proof};
use pointproofs::update::{update_commitment, update_proof};

fn seed() -> Vec<u8> {
    b"this is a test seed of 32 bytes!".to_vec()
}

fn values4() -> Vec<Vec<u8>> {
    vec![b"a".to_vec(), b"b".to_vec(), b"c".to_vec(), b"d".to_vec()]
}

#[test]
fn update_proof_matches_fresh_prove() {
    let (pp, _vp) = PointproofsParams::paramgen_from_seed(&seed(), 0, 4).unwrap();
    let values = values4();
    let mut updated_values = values4();
    updated_values[1] = b"B".to_vec();
    for j in [0usize, 2, 3] {
        let pf = prove(&pp, &values, j).unwrap();
        let moved = update_proof(&pp, &pf, j, 1, &values[1], &updated_values[1]).unwrap();
        let fresh = prove(&pp, &updated_values, j).unwrap();
        assert_eq!(moved, fresh);
        assert_eq!(
            moved.serialize(true).unwrap(),
            fresh.serialize(true).unwrap()
        );
    }
}

#[test]
fn update_proof_same_index_is_unchanged() {
    let (pp, _vp) = PointproofsParams::paramgen_from_seed(&seed(), 0, 4).unwrap();
    let values = values4();
    let mut updated_values = values4();
    updated_values[2] = b"C".to_vec();
    let pf = prove(&pp, &values, 2).unwrap();
    let moved = update_proof(&pp, &pf, 2, 2, &values[2], &updated_values[2]).unwrap();
    assert_eq!(moved, pf);
    // The proof for an index does not depend on that index's own value.
    let fresh = prove(&pp, &updated_values, 2).unwrap();
    assert_eq!(fresh, pf);
}

#[test]
fn update_proof_rejects_bad_indices() {
    let (pp, _vp) = PointproofsParams::paramgen_from_seed(&seed(), 0, 4).unwrap();
    let values = values4();
    let pf = prove(&pp, &values, 2).unwrap();
    assert_eq!(
        update_proof(&pp, &pf, 4, 1, &values[1], &b"B".to_vec()).unwrap_err(),
        PointproofsError::IndexOutOfRange
    );
    assert_eq!(
        update_proof(&pp, &pf, 2, 4, &values[1], &b"B".to_vec()).unwrap_err(),
        PointproofsError::IndexOutOfRange
    );
}

#[test]
fn proof_serde_round_trip() {
    let (pp, _vp) = PointproofsParams::paramgen_from_seed(&seed(), 0, 4).unwrap();
    let pf = prove(&pp, &values4(), 1).unwrap();
    let bytes = pf.serialize(true).unwrap();
    assert_eq!(bytes.len(), 49);
    let back = Proof::deserialize(&bytes, true).unwrap();
    assert_eq!(back, pf);
    let mut tagged = bytes.clone();
    tagged[0] = 9u8;
    assert_eq!(
        Proof::deserialize(&tagged, true).unwrap_err(),
        PointproofsError::MalformedParameters
    );
}

#[test]
fn end_to_end_scenario() {
    // n = 4, values [a, b, c, d]: commit, open index 2, verify both ways,
    // then change index 1 and move the commitment and the proof along.
    let (pp, vp) = PointproofsParams::paramgen_from_seed(&seed(), 0, 4).unwrap();
    let values = values4();
    let com = commit(&pp, &values).unwrap();
    let pf2 = prove(&pp, &values, 2).unwrap();
    assert!(verify(&vp, &com, &pf2, &b"c".to_vec(), 2));
    assert!(!verify(&vp, &com, &pf2, &b"z".to_vec(), 2));

    let mut updated_values = values4();
    updated_values[1] = b"B".to_vec();
    let com2 = update_commitment(&pp, &com, 1, &values[1], &updated_values[1]).unwrap();
    let moved = update_proof(&pp, &pf2, 2, 1, &values[1], &updated_values[1]).unwrap();
    let fresh = prove(&pp, &updated_values, 2).unwrap();
    assert_eq!(moved, fresh);
    assert!(verify(&vp, &com2, &moved, &b"c".to_vec(), 2));
    assert!(!verify(&vp, &com, &moved, &b"c".to_vec(), 2));
}
