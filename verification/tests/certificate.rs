use sha2::{Digest, Sha256};
use vetkd_notes::certificate::{
    bytes_equal, cbor_to_hash_tree, reconstruct_root_hash, verify_cbor_proof, verify_ic_certificate,
    verify_proof_bytes, CborItem, HashTreeNode,
};

fn cbor_bytes(b: &[u8; 32]) -> Vec<u8> {
    let mut v = vec![0x58, 0x20];
    v.extend_from_slice(b);
    v
}

fn fork_hash(l: &[u8; 32], r: &[u8; 32]) -> [u8; 32] {
    let mut h = Sha256::new();
    h.update(b"fork");
    h.update(l);
    h.update(r);
    h.finalize().into()
}

fn b64(bytes: &[u8]) -> String {
    base64::encode(bytes)
}

#[test]
fn single_leaf_proof() {
    let w = [7u8; 32];
    let proof = b64(&cbor_bytes(&w));
    assert!(verify_ic_certificate(w, &proof, w));
    assert!(!verify_ic_certificate(w, &proof, [8u8; 32]));
    assert!(!verify_ic_certificate([9u8; 32], &proof, [9u8; 32]));
}

#[test]
fn fork_proof() {
    let w = [1u8; 32];
    let other = [2u8; 32];
    let mut cbor = vec![0x82];
    cbor.extend(cbor_bytes(&w));
    cbor.extend(cbor_bytes(&other));
    let expected = fork_hash(&w, &[0u8; 32]);
    assert!(verify_ic_certificate(w, &b64(&cbor), expected));
    assert!(verify_proof_bytes(w, &cbor, expected));
    assert!(!verify_ic_certificate(w, &b64(&cbor), fork_hash(&w, &other)));
    let both = fork_hash(&w, &w);
    let mut cbor2 = vec![0x82];
    cbor2.extend(cbor_bytes(&w));
    cbor2.extend(cbor_bytes(&w));
    assert!(verify_proof_bytes(w, &cbor2, both));
    let right_only = fork_hash(&[0u8; 32], &w);
    let mut cbor3 = vec![0x82];
    cbor3.extend(cbor_bytes(&other));
    cbor3.extend(cbor_bytes(&w));
    assert!(verify_proof_bytes(w, &cbor3, right_only));
}

#[test]
fn proof_failures() {
    let w = [3u8; 32];
    assert!(!verify_ic_certificate(w, "not base64!", w));
    assert!(!verify_ic_certificate(w, &b64(&[0xff, 0x00]), w));
    assert!(!verify_proof_bytes(w, &[0x63, b'a', b'b', b'c'], w));
    let mut three = vec![0x83];
    for _ in 0..3 {
        three.extend(cbor_bytes(&w));
    }
    assert!(!verify_proof_bytes(w, &three, w));
    let mut neither = vec![0x82];
    neither.extend(cbor_bytes(&[4u8; 32]));
    neither.extend(cbor_bytes(&[5u8; 32]));
    assert!(!verify_proof_bytes(w, &neither, w));
}

#[test]
fn cbor_to_tree_shapes() {
    let leaf = CborItem::Bytes(vec![1, 2]);
    assert!(matches!(cbor_to_hash_tree(&leaf), Some(HashTreeNode::Leaf(d)) if d == vec![1, 2]));
    let pair = CborItem::Array(vec![CborItem::Bytes(vec![1]), CborItem::Bytes(vec![2])]);
    assert!(matches!(cbor_to_hash_tree(&pair), Some(HashTreeNode::Fork(_, _))));
    let bad = CborItem::Array(vec![CborItem::Bytes(vec![1]), CborItem::Other]);
    assert!(cbor_to_hash_tree(&bad).is_none());
    let one = CborItem::Array(vec![CborItem::Bytes(vec![1])]);
    assert!(cbor_to_hash_tree(&one).is_none());
    assert!(cbor_to_hash_tree(&CborItem::Other).is_none());
}

#[test]
fn reconstruct_shapes() {
    let w = [6u8; 32];
    assert_eq!(reconstruct_root_hash(&HashTreeNode::Leaf(w.to_vec()), w), Some(w));
    assert_eq!(reconstruct_root_hash(&HashTreeNode::Leaf(vec![6u8; 31]), w), None);
    assert_eq!(reconstruct_root_hash(&HashTreeNode::Empty, w), None);
    assert_eq!(reconstruct_root_hash(&HashTreeNode::Pruned(w), w), None);
    let fork = HashTreeNode::Fork(
        Box::new(HashTreeNode::Leaf(vec![0])),
        Box::new(HashTreeNode::Leaf(w.to_vec())),
    );
    assert_eq!(reconstruct_root_hash(&fork, w), Some(fork_hash(&[0u8; 32], &w)));
}

#[test]
fn law_leaf_proof_checks_witness_against_root() {
    let w = [10u8; 32];
    assert!(verify_cbor_proof(w, &CborItem::Bytes(w.to_vec()), w));
    assert!(!verify_cbor_proof(w, &CborItem::Bytes(w.to_vec()), [11u8; 32]));
}

#[test]
fn law_fork_of_leaves_proof() {
    let w = [12u8; 32];
    let item = CborItem::Array(vec![CborItem::Bytes(vec![1]), CborItem::Bytes(w.to_vec())]);
    assert!(verify_cbor_proof(w, &item, fork_hash(&[0u8; 32], &w)));
}

#[test]
fn byte_equality() {
    assert!(bytes_equal(&[1, 2], &[1, 2]));
    assert!(!bytes_equal(&[1, 2], &[1, 3]));
    assert!(!bytes_equal(&[1, 2], &[1]));
}

#[test]
fn law_labeled_digest_concatenates_label_and_data() {
    // A fork hash is SHA-256 of "fork" and the sides with nothing between
    // them, so it equals SHA-256 of "for" followed by "k" and the sides.
    let w = [13u8; 32];
    let fork = HashTreeNode::Fork(
        Box::new(HashTreeNode::Leaf(w.to_vec())),
        Box::new(HashTreeNode::Leaf(w.to_vec())),
    );
    let mut h = Sha256::new();
    h.update(b"for");
    let mut rest = b"k".to_vec();
    rest.extend_from_slice(&w);
    rest.extend_from_slice(&w);
    h.update(&rest);
    let shifted: [u8; 32] = h.finalize().into();
    assert_eq!(reconstruct_root_hash(&fork, w), Some(shifted));
}
