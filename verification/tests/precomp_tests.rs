use pointproofs::commit::commit;
use pointproofs::params::PointproofsParams;
use pointproofs::precomp::{
    build_table_256, build_table_3, commit_with_precomp, prove_with_precomp,
    update_commitment_with_precomp,
};
use pointproofs::prove::prove;
use pointproofs::update::update_commitment;

fn seed() -> Vec<u8> {
    b"this is a test seed of 32 bytes!".to_vec()
}

fn values4() -> Vec<Vec<u8>> {
    vec![b"a".to_vec(), b"b".to_vec(), b"c".to_vec(), b"d".to_vec()]
}

#[test]
fn precomputed_commit_is_bit_identical() {
    let (pp, _vp) = PointproofsParams::paramgen_from_seed(&seed(), 0, 4).unwrap();
    let table = build_table_256(&pp.g1_alpha_1_to_n);
    let plain = commit(&pp, &values4()).unwrap();
    let fast = commit_with_precomp(&pp, &table, &values4()).unwrap();
    assert_eq!(fast, plain);
    assert_eq!(
        fast.serialize(true).unwrap(),
        plain.serialize(true).unwrap()
    );
}

#[test]
fn precomputed_prove_is_bit_identical() {
    let (pp, _vp) = PointproofsParams::paramgen_from_seed(&seed(), 0, 4).unwrap();
    let table_main = build_table_256(&pp.g1_alpha_1_to_n);
    let table_gap = build_table_256(&pp.g1_alpha_nplus2_to_2n);
    for i in 0..4 {
        let plain = prove(&pp, &values4(), i).unwrap();
        let fast = prove_with_precomp(&pp, &table_main, &table_gap, &values4(), i).unwrap();
        assert_eq!(fast, plain);
        assert_eq!(
            fast.serialize(true).unwrap(),
            plain.serialize(true).unwrap()
        );
    }
}

#[test]
fn precomputed_update_is_bit_identical() {
    let (pp, _vp) = PointproofsParams::paramgen_from_seed(&seed(), 0, 4).unwrap();
    let table = build_table_3(&pp.g1_alpha_1_to_n);
    let values = values4();
    let com = commit(&pp, &values).unwrap();
    let plain = update_commitment(&pp, &com, 1, &values[1], &b"B".to_vec()).unwrap();
    let fast =
        update_commitment_with_precomp(&pp, &table, &com, 1, &values[1], &b"B".to_vec()).unwrap();
    assert_eq!(fast, plain);
    assert_eq!(
        fast.serialize(true).unwrap(),
        plain.serialize(true).unwrap()
    );
}
