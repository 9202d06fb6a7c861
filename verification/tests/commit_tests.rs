use pointproofs::commit::{commit, Commitment};
use pointproofs::errors::PointproofsError;
use pointproofs::params::PointproofsParams;
use pointproofs::prove::{prove, verify};
use pointproofs::update::update_commitment;

fn seed() -> Vec<u8> {
    b"this is a test seed of 32 bytes!".to_vec()
}

fn values4() -> Vec<Vec<u8>> {
    vec![b"a".to_vec(), b"b".to_vec(), b"c".to_vec(), b"d".to_vec()]
}

#[test]
fn commit_prove_verify_all_indices() {
    let (pp, vp) = PointproofsParams::paramgen_from_seed(&seed(), 0, 4).unwrap();
    let values = values4();
    let com = commit(&pp, &values).unwrap();
    for i in 0..values.len() {
        let pf = prove(&pp, &values, i).unwrap();
        assert!(verify(&vp, &com, &pf, &values[i], i));
    }
}

#[test]
fn commit_prove_verify_short_vector() {
    // The vector may be shorter than the capacity; empty values are valid.
    let (pp, vp) = PointproofsParams::paramgen_from_seed(&seed(), 0, 4).unwrap();
    let values = vec![b"".to_vec(), b"x".to_vec()];
    let com = commit(&pp, &values).unwrap();
    for i in 0..values.len() {
        let pf = prove(&pp, &values, i).unwrap();
        assert!(verify(&vp, &com, &pf, &values[i], i));
    }
}

#[test]
fn verify_rejects_wrong_value() {
    let (pp, vp) = PointproofsParams::paramgen_from_seed(&seed(), 0, 4).unwrap();
    let values = values4();
    let com = commit(&pp, &values).unwrap();
    let pf = prove(&pp, &values, 2).unwrap();
    assert!(!verify(&vp, &com, &pf, &b"z".to_vec(), 2));
    assert!(!verify(&vp, &com, &pf, &b"".to_vec(), 2));
}

#[test]
fn verify_rejects_wrong_index() {
    let (pp, vp) = PointproofsParams::paramgen_from_seed(&seed(), 0, 4).unwrap();
    let values = values4();
    let com = commit(&pp, &values).unwrap();
    let pf = prove(&pp, &values, 2).unwrap();
    assert!(!verify(&vp, &com, &pf, &values[2], 1));
    assert!(!verify(&vp, &com, &pf, &values[2], 7));
}

#[test]
fn commit_rejects_overlong_vector() {
    let (pp, _vp) = PointproofsParams::paramgen_from_seed(&seed(), 0, 4).unwrap();
    let mut values = values4();
    values.push(b"e".to_vec());
    assert_eq!(
        commit(&pp, &values).unwrap_err(),
        PointproofsError::CapacityExceeded
    );
}

#[test]
fn prove_rejects_bad_index() {
    let (pp, _vp) = PointproofsParams::paramgen_from_seed(&seed(), 0, 4).unwrap();
    let values = values4();
    assert_eq!(
        prove(&pp, &values, 4).unwrap_err(),
        PointproofsError::IndexOutOfRange
    );
    let mut long = values4();
    long.push(b"e".to_vec());
    assert_eq!(
        prove(&pp, &long, 0).unwrap_err(),
        PointproofsError::CapacityExceeded
    );
}

#[test]
fn commit_is_deterministic_and_value_sensitive() {
    let (pp, _vp) = PointproofsParams::paramgen_from_seed(&seed(), 0, 4).unwrap();
    let com1 = commit(&pp, &values4()).unwrap();
    let com2 = commit(&pp, &values4()).unwrap();
    assert_eq!(com1, com2);
    let mut other = values4();
    other[3] = b"D".to_vec();
    let com3 = commit(&pp, &other).unwrap();
    assert_ne!(com1, com3);
}

#[test]
fn update_commitment_matches_fresh_commit() {
    let (pp, _vp) = PointproofsParams::paramgen_from_seed(&seed(), 0, 4).unwrap();
    let values = values4();
    let com = commit(&pp, &values).unwrap();
    let mut updated_values = values4();
    updated_values[1] = b"B".to_vec();
    let updated = update_commitment(&pp, &com, 1, &values[1], &updated_values[1]).unwrap();
    let fresh = commit(&pp, &updated_values).unwrap();
    assert_eq!(updated, fresh);
    // Bit-identical on the wire as well.
    assert_eq!(
        updated.serialize(true).unwrap(),
        fresh.serialize(true).unwrap()
    );
}

#[test]
fn update_commitment_rejects_bad_index() {
    let (pp, _vp) = PointproofsParams::paramgen_from_seed(&seed(), 0, 4).unwrap();
    let com = commit(&pp, &values4()).unwrap();
    assert_eq!(
        update_commitment(&pp, &com, 4, &b"b".to_vec(), &b"B".to_vec()).unwrap_err(),
        PointproofsError::IndexOutOfRange
    );
}

#[test]
fn commitment_serde_round_trip() {
    let (pp, _vp) = PointproofsParams::paramgen_from_seed(&seed(), 0, 4).unwrap();
    let com = commit(&pp, &values4()).unwrap();
    let bytes = com.serialize(true).unwrap();
    assert_eq!(bytes.len(), 49);
    assert_eq!(bytes[0], 0u8);
    let back = Commitment::deserialize(&bytes, true).unwrap();
    assert_eq!(back, com);
    assert_eq!(
        com.serialize(false).unwrap_err(),
        PointproofsError::MalformedParameters
    );
}

#[test]
fn commitment_deserialize_rejects_malformed() {
    let (pp, _vp) = PointproofsParams::paramgen_from_seed(&seed(), 0, 4).unwrap();
    let com = commit(&pp, &values4()).unwrap();
    let bytes = com.serialize(true).unwrap();
    // Unknown ciphersuite tag.
    let mut tagged = bytes.clone();
    tagged[0] = 1u8;
    assert_eq!(
        Commitment::deserialize(&tagged, true).unwrap_err(),
        PointproofsError::MalformedParameters
    );
    // Truncated and padded forms.
    assert_eq!(
        Commitment::deserialize(&bytes[..48], true).unwrap_err(),
        PointproofsError::MalformedParameters
    );
    let mut padded = bytes.clone();
    padded.push(0u8);
    assert_eq!(
        Commitment::deserialize(&padded, true).unwrap_err(),
        PointproofsError::MalformedParameters
    );
}
