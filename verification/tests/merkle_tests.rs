use std::rc::Rc;

use merkle::merkle_tree::MerkleDirection;
use merkle::merkle_tree::MerkleTree;
use merkle::merkle_tree_factory::MerkleTreeFactory;

fn blocks(items: &[&str]) -> Vec<Vec<u8>> {
    items.iter().map(|x| x.as_bytes().to_vec()).collect()
}

fn build(items: &[&str]) -> Rc<MerkleTree> {
    MerkleTreeFactory::new(blocks(items)).create_tree()
}

#[test]
fn test_find_element() {
    let data = vec!["1", "2", "3", "4", "5", "6", "7", "8"]
        .into_iter()
        .map(|x| x.as_bytes().to_vec())
        .collect::<Vec<Vec<u8>>>();

    let factory = MerkleTreeFactory::new(data.clone());
    let tree = factory.create_tree();
    println!("Tree: {:#?}", tree);
    let hash = sha256::digest("7".as_bytes().to_vec());
    let proof = MerkleTree::construct_proof(Rc::clone(&tree), hash).unwrap_or_default();

    let verified_hash = MerkleTree::verify_proof(proof);

    println!("verified proof: {:#?}", verified_hash);
    assert_eq!(verified_hash, Rc::clone(&tree).hash);
}

#[test]
fn round_trip_inclusion_every_element() {
    let items = ["a", "b", "c", "d", "e", "f", "g"];
    for n in 1..=items.len() {
        let tree = build(&items[..n]);
        for e in &items[..n] {
            let target = sha256::digest(e.as_bytes().to_vec());
            let proof = MerkleTree::construct_proof(Rc::clone(&tree), target)
                .expect("present element must have a proof");
            assert_eq!(MerkleTree::verify_proof(proof), tree.hash);
        }
    }
}

#[test]
fn negative_proof_not_found() {
    let tree = build(&["1", "2", "3", "4"]);
    let absent = sha256::digest("5".as_bytes().to_vec());
    assert!(MerkleTree::find(Rc::clone(&tree), absent.clone()).is_none());
    assert!(MerkleTree::construct_proof(Rc::clone(&tree), absent).is_none());
}

#[test]
fn determinism_same_sequence_same_root() {
    let a = build(&["x", "y", "z"]);
    let b = build(&["x", "y", "z"]);
    assert_eq!(a.hash, b.hash);
}

#[test]
fn order_sensitivity_reordering_changes_root() {
    let a = build(&["x", "y"]);
    let b = build(&["y", "x"]);
    assert_ne!(a.hash, b.hash);

    // A proof constructed against one order verifies against that order's
    // root, not the other's.
    let target = sha256::digest("x".as_bytes().to_vec());
    let proof = MerkleTree::construct_proof(Rc::clone(&a), target).unwrap();
    let recomputed = MerkleTree::verify_proof(proof);
    assert_eq!(recomputed, a.hash);
    assert_ne!(recomputed, b.hash);
}

#[test]
fn single_leaf_tree() {
    let tree = build(&["only"]);
    let target = sha256::digest("only".as_bytes().to_vec());
    assert_eq!(tree.hash, target);
    assert!(tree.children.is_none());

    let proof = MerkleTree::construct_proof(Rc::clone(&tree), target.clone()).unwrap();
    assert_eq!(proof.len(), 1);
    assert_eq!(proof[0].1, target);
    assert_eq!(MerkleTree::verify_proof(proof), target);
}

#[test]
fn odd_count_carry_forward_shape() {
    let tree = build(&["1", "2", "3"]);
    let h1 = sha256::digest("1".as_bytes().to_vec());
    let h2 = sha256::digest("2".as_bytes().to_vec());
    let h3 = sha256::digest("3".as_bytes().to_vec());
    let h12 = sha256::digest(format!("{}{}", h1, h2));
    let root = sha256::digest(format!("{}{}", h12, h3));
    assert_eq!(tree.hash, root);

    let (left, right) = tree.children.as_ref().expect("root must be internal");
    assert_eq!(left.hash, h12);
    // The third leaf is carried forward unchanged, not paired with itself.
    assert_eq!(right.hash, h3);
    assert!(right.children.is_none());

    let (ll, lr) = left.children.as_ref().expect("left child must be internal");
    assert_eq!(ll.hash, h1);
    assert_eq!(lr.hash, h2);
    assert!(ll.children.is_none());
    assert!(lr.children.is_none());
}

#[test]
fn tamper_detection_each_entry() {
    let tree = build(&["p", "q", "r", "s", "t"]);
    let target = sha256::digest("q".as_bytes().to_vec());
    let proof = MerkleTree::construct_proof(Rc::clone(&tree), target).unwrap();
    assert_eq!(MerkleTree::verify_proof(proof.clone()), tree.hash);

    let bogus = sha256::digest("tampered".as_bytes().to_vec());
    for i in 0..proof.len() {
        let mut mutated = proof.clone();
        assert_ne!(mutated[i].1, bogus);
        mutated[i].1 = bogus.clone();
        assert_ne!(MerkleTree::verify_proof(mutated), tree.hash);
    }
}

#[test]
fn empty_tree_sentinel() {
    let tree = MerkleTreeFactory::new(Vec::new()).create_tree();
    assert_eq!(tree.hash, String::new());
    assert!(tree.children.is_none());

    let target = sha256::digest("anything".as_bytes().to_vec());
    assert!(MerkleTree::find(Rc::clone(&tree), target.clone()).is_none());
    assert!(MerkleTree::construct_proof(Rc::clone(&tree), target).is_none());
}

#[test]
fn empty_proof_verifies_to_empty_string() {
    let proof: Vec<(MerkleDirection, String)> = Vec::new();
    assert_eq!(MerkleTree::verify_proof(proof), String::new());
}

#[test]
fn factory_insert_matches_batch_construction() {
    let mut factory = MerkleTreeFactory::new(Vec::new());
    factory.insert("1".as_bytes().to_vec());
    factory.insert("2".as_bytes().to_vec());
    factory.insert("3".as_bytes().to_vec());
    let grown = factory.create_tree();
    let batch = build(&["1", "2", "3"]);
    assert_eq!(grown.hash, batch.hash);
}

#[test]
fn find_returns_path_from_match_to_root() {
    let tree = build(&["1", "2", "3", "4"]);
    let target = sha256::digest("3".as_bytes().to_vec());
    let path = MerkleTree::find(Rc::clone(&tree), target.clone()).unwrap();
    assert_eq!(path.len(), 3);
    assert_eq!(path[0].hash, target);
    assert_eq!(path[path.len() - 1].hash, tree.hash);
}

#[test]
fn find_root_hash_gives_seed_only_proof() {
    let tree = build(&["1", "2"]);
    let proof = MerkleTree::construct_proof(Rc::clone(&tree), tree.hash.clone()).unwrap();
    assert_eq!(proof.len(), 1);
    assert_eq!(proof[0].1, tree.hash);
    assert_eq!(MerkleTree::verify_proof(proof), tree.hash);
}

#[test]
fn proof_entries_name_sibling_hashes() {
    let tree = build(&["1", "2", "3", "4"]);
    let h1 = sha256::digest("1".as_bytes().to_vec());
    let h2 = sha256::digest("2".as_bytes().to_vec());
    let h34 = sha256::digest(format!(
        "{}{}",
        sha256::digest("3".as_bytes().to_vec()),
        sha256::digest("4".as_bytes().to_vec())
    ));
    let proof = MerkleTree::construct_proof(Rc::clone(&tree), h1.clone()).unwrap();
    assert_eq!(proof.len(), 3);
    // Seed: the matched leaf's own hash; its direction is a placeholder.
    assert_eq!(proof[0].1, h1);
    // First real entry: sibling "2" stands on the right.
    assert_eq!(proof[1], (MerkleDirection::Right, h2));
    // Second: the (3,4) subtree stands on the right of the matched branch.
    assert_eq!(proof[2], (MerkleDirection::Right, h34));
}

#[test]
fn builder_with_kept_leaves_builds() {
    let mut builder = merkle::merkle::MerkleTree::new(blocks(&["1", "2", "3"]));
    builder.insert("4".as_bytes().to_vec());
    builder.create_tree();
}
