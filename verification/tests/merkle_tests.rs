use onvm::merkle::{merkle_root, sparse_merkle_proof, sparse_merkle_root, verify_sparse_merkle_proof, SMT_EMPTY};
use onvm::proposal::compute_root_after_writes;
use onvm::types::StateWrite;

#[test]
fn empty_root_is_constant() {
    let root = merkle_root(&[]);
    assert_eq!(root, *blake3::hash(b"onvm-empty-root").as_bytes());
}

#[test]
fn ordering_is_deterministic() {
    let a = (b"a".to_vec(), b"1".to_vec());
    let b = (b"b".to_vec(), b"2".to_vec());

    let root_ab = merkle_root(&[a.clone(), b.clone()]);
    let root_ba = merkle_root(&[b, a]);

    assert_eq!(root_ab, root_ba);
}

#[test]
fn sparse_merkle_root_changes_with_value() {
    let root1 = sparse_merkle_root(&[(b"a".to_vec(), b"1".to_vec())]);
    let root2 = sparse_merkle_root(&[(b"a".to_vec(), b"2".to_vec())]);
    assert_ne!(root1, root2);
}

#[test]
fn sparse_merkle_proof_verifies() {
    let pairs = vec![
        (b"alpha".to_vec(), b"one".to_vec()),
        (b"beta".to_vec(), b"two".to_vec()),
    ];
    let (root, proof) = sparse_merkle_proof(&pairs, b"alpha");
    assert!(verify_sparse_merkle_proof(b"alpha", b"one", &proof, root));
    assert!(!verify_sparse_merkle_proof(b"alpha", b"wrong", &proof, root));
}

#[test]
fn sparse_root_of_nothing_is_the_empty_constant() {
    assert_eq!(sparse_merkle_root(&[]), SMT_EMPTY);
    assert_eq!(&SMT_EMPTY[..29], b"onvm-smt-empty-onvm-smt-empty");
}

#[test]
fn single_pair_merkle_root_is_its_leaf() {
    let leaf_input = [
        blake3::hash(b"k").as_bytes().as_slice(),
        blake3::hash(b"v").as_bytes().as_slice(),
    ]
    .concat();
    let expected = *blake3::hash(&leaf_input).as_bytes();
    assert_eq!(merkle_root(&[(b"k".to_vec(), b"v".to_vec())]), expected);
}

#[test]
fn sparse_proof_has_one_sibling_per_level() {
    let pairs = vec![(b"x".to_vec(), b"1".to_vec())];
    let (root, proof) = sparse_merkle_proof(&pairs, b"x");
    assert_eq!(proof.len(), 256);
    assert_eq!(root, sparse_merkle_root(&pairs));
    assert!(verify_sparse_merkle_proof(b"x", b"1", &proof, root));
}

#[test]
fn later_pair_for_a_key_wins() {
    let twice = vec![(b"k".to_vec(), b"old".to_vec()), (b"k".to_vec(), b"new".to_vec())];
    let once = vec![(b"k".to_vec(), b"new".to_vec())];
    assert_eq!(sparse_merkle_root(&twice), sparse_merkle_root(&once));
}

#[test]
fn root_after_writes_matches_the_written_state() {
    let current = vec![(b"a".to_vec(), b"1".to_vec()), (b"b".to_vec(), b"2".to_vec())];
    let writes = vec![
        StateWrite { key: b"a".to_vec(), value: Some(b"9".to_vec()) },
        StateWrite { key: b"b".to_vec(), value: None },
        StateWrite { key: b"c".to_vec(), value: Some(b"3".to_vec()) },
    ];
    let expected = sparse_merkle_root(&[(b"a".to_vec(), b"9".to_vec()), (b"c".to_vec(), b"3".to_vec())]);
    assert_eq!(compute_root_after_writes(&current, &writes), expected);
}

#[test]
fn no_writes_keep_the_root() {
    let current = vec![(b"a".to_vec(), b"1".to_vec())];
    assert_eq!(compute_root_after_writes(&current, &[]), sparse_merkle_root(&current));
}

#[test]
fn written_value_is_provable() {
    let current = vec![(b"a".to_vec(), b"1".to_vec())];
    let writes = vec![StateWrite { key: b"z".to_vec(), value: Some(b"26".to_vec()) }];
    let root = compute_root_after_writes(&current, &writes);
    let state = vec![(b"a".to_vec(), b"1".to_vec()), (b"z".to_vec(), b"26".to_vec())];
    let (proof_root, proof) = sparse_merkle_proof(&state, b"z");
    assert_eq!(proof_root, root);
    assert!(verify_sparse_merkle_proof(b"z", b"26", &proof, root));
}

#[test]
fn sparse_root_ignores_the_order_of_distinct_keys() {
    let a = (b"alpha".to_vec(), b"1".to_vec());
    let b = (b"beta".to_vec(), b"2".to_vec());
    let c = (b"gamma".to_vec(), b"3".to_vec());
    let r1 = sparse_merkle_root(&[a.clone(), b.clone(), c.clone()]);
    let r2 = sparse_merkle_root(&[c.clone(), a.clone(), b.clone()]);
    assert_eq!(r1, r2);
    let overwritten = (b"beta".to_vec(), b"old".to_vec());
    let r3 = sparse_merkle_root(&[overwritten, c, b, a]);
    assert_eq!(r1, r3);
}

#[test]
fn proof_rejects_another_value() {
    let pairs = vec![
        (b"k1".to_vec(), b"v1".to_vec()),
        (b"k2".to_vec(), b"v2".to_vec()),
    ];
    let (root, proof) = sparse_merkle_proof(&pairs, b"k1");
    assert!(verify_sparse_merkle_proof(b"k1", b"v1", &proof, root));
    assert!(!verify_sparse_merkle_proof(b"k1", b"v2", &proof, root));
    assert!(!verify_sparse_merkle_proof(b"k1", b"", &proof, root));
}

#[test]
fn merkle_root_ignores_any_permutation() {
    let p = vec![
        (b"a".to_vec(), b"1".to_vec()),
        (b"b".to_vec(), b"2".to_vec()),
        (b"c".to_vec(), b"3".to_vec()),
    ];
    let q = vec![p[2].clone(), p[0].clone(), p[1].clone()];
    assert_eq!(merkle_root(&p), merkle_root(&q));
}
