use zkvault::field::Fe;
use zkvault::tree::{MerkleTree, TreeError};

#[test]
fn test_empty_tree() {
    let tree = MerkleTree::new(vec![]);
    assert_eq!(tree.num_leaves(), 0);
}

#[test]
fn test_single_leaf() {
    let leaf = Fe::from_u64(42);
    let tree = MerkleTree::new(vec![leaf]);

    assert_eq!(tree.num_leaves(), 1);
    assert!(tree.contains(&Fe::from_u64(42)));

    let path = tree.get_path(0).unwrap();
    assert!(path.verify(&tree.root(), tree.hasher()));
}

#[test]
fn test_multiple_leaves() {
    let leaves: Vec<Fe> = (0..8).map(|i| Fe::from_u64(i as u64)).collect();
    let tree = MerkleTree::new(leaves);

    assert_eq!(tree.num_leaves(), 8);
    assert_eq!(tree.depth(), 3);

    for i in 0..8usize {
        assert!(tree.contains(&Fe::from_u64(i as u64)));
        let path = tree.get_path(i).unwrap();
        assert!(path.verify(&tree.root(), tree.hasher()));
    }
}

#[test]
fn test_non_power_of_two() {
    let leaves: Vec<Fe> = (0..5).map(|i| Fe::from_u64(i as u64)).collect();
    let tree = MerkleTree::new(leaves);

    assert_eq!(tree.num_leaves(), 5);
    assert_eq!(tree.depth(), 3); // Padded to 8

    for i in 0..5usize {
        let path = tree.get_path(i).unwrap();
        assert!(path.verify(&tree.root(), tree.hasher()));
    }
    assert!(tree.get_path(5).is_none());
}

#[test]
fn test_serialization() {
    let leaves: Vec<Fe> = (0..4).map(|i| Fe::from_u64(i as u64)).collect();
    let tree = MerkleTree::new(leaves);

    let bytes = tree.to_bytes();
    let restored = MerkleTree::from_bytes(&bytes).unwrap();

    assert_eq!(tree.root(), restored.root());
    assert_eq!(tree.depth(), restored.depth());
    assert_eq!(tree.num_leaves(), restored.num_leaves());

    // Verify paths still work
    for i in 0..4usize {
        let path = restored.get_path(i).unwrap();
        assert!(path.verify(&restored.root(), restored.hasher()));
    }
}

#[test]
fn test_invalid_path_fails() {
    let leaves: Vec<Fe> = (0..4).map(|i| Fe::from_u64(i as u64)).collect();
    let tree = MerkleTree::new(leaves);

    let mut path = tree.get_path(0).unwrap();
    // Corrupt the path
    path.siblings[0] = Fe::from_u64(999);

    assert!(!path.verify(&tree.root(), tree.hasher()));
}

#[test]
fn test_find_leaf() {
    let leaves: Vec<Fe> = (0..8).map(|i| Fe::from_u64(i as u64)).collect();
    let tree = MerkleTree::new(leaves);

    assert_eq!(tree.find_leaf(&Fe::from_u64(3)), Some(3));
    assert_eq!(tree.find_leaf(&Fe::from_u64(100)), None);
}

#[test]
fn test_flipped_index_bit_fails() {
    let leaves: Vec<Fe> = (0..8).map(|i| Fe::from_u64(i as u64)).collect();
    let tree = MerkleTree::new(leaves);

    let mut path = tree.get_path(3).unwrap();
    let flipped = !path.indices[1];
    path.indices[1] = flipped;

    assert!(!path.verify(&tree.root(), tree.hasher()));
}

#[test]
fn test_get_path_for_leaf() {
    let leaves: Vec<Fe> = (0..6).map(|i| Fe::from_u64(10 + i as u64)).collect();
    let tree = MerkleTree::new(leaves);

    let path = tree.get_path_for_leaf(&Fe::from_u64(12)).unwrap();
    assert!(path.verify(&tree.root(), tree.hasher()));
    assert!(tree.get_path_for_leaf(&Fe::from_u64(99)).is_none());
}

#[test]
fn test_from_bytes_rejects_truncated() {
    let leaves: Vec<Fe> = (0..4).map(|i| Fe::from_u64(i as u64)).collect();
    let tree = MerkleTree::new(leaves);

    let mut bytes = tree.to_bytes();
    bytes.pop();
    let result = MerkleTree::from_bytes(&bytes);
    assert!(matches!(result, Err(TreeError::DeserializationError(_))));
}

#[test]
fn test_from_bytes_rejects_corrupt_node() {
    let leaves: Vec<Fe> = (0..4).map(|i| Fe::from_u64(i as u64)).collect();
    let tree = MerkleTree::new(leaves);

    let mut bytes = tree.to_bytes();
    // Flip a bit in the root node's encoding, breaking the hash relation.
    let flipped = bytes[12] ^ 1;
    bytes[12] = flipped;
    let result = MerkleTree::from_bytes(&bytes);
    assert!(result.is_err());
}

#[test]
fn test_zero_leaf_round_trip() {
    // A real zero leaf is indistinguishable from padding in value, but the
    // stored leaf count keeps them apart across serialization; of the two
    // equal real leaves, lookup reports the later one.
    let leaves: Vec<Fe> = vec![Fe::from_u64(0), Fe::from_u64(7), Fe::from_u64(0)];
    let tree = MerkleTree::new(leaves);
    assert_eq!(tree.num_leaves(), 3);

    let restored = MerkleTree::from_bytes(&tree.to_bytes()).unwrap();
    assert_eq!(restored.num_leaves(), 3);
    assert_eq!(restored.find_leaf(&Fe::from_u64(0)), Some(2));
}

#[test]
fn test_find_leaf_duplicates_returns_last() {
    // Equal leaves shadow earlier ones, as a lookup map filled in index
    // order would: the reported index is the last occurrence.
    let leaves: Vec<Fe> = vec![
        Fe::from_u64(5),
        Fe::from_u64(6),
        Fe::from_u64(5),
        Fe::from_u64(7),
    ];
    let tree = MerkleTree::new(leaves);
    assert_eq!(tree.find_leaf(&Fe::from_u64(5)), Some(2));
    assert_eq!(tree.find_leaf(&Fe::from_u64(6)), Some(1));
}

#[test]
fn test_try_new_accepts_ordinary_input() {
    let leaves: Vec<Fe> = (0..3).map(|i| Fe::from_u64(i as u64)).collect();
    let tree = MerkleTree::try_new(leaves).unwrap();
    assert_eq!(tree.num_leaves(), 3);
    assert_eq!(tree.depth(), 2);
}
