//! Mathematical model of a Merkle tree: a ghost datatype for nodes, the
//! bottom-up level-reduction that defines the shape of a built tree, the
//! depth-first search that defines lookup, and the hash-folding that defines
//! proof verification.

use vstd::prelude::*;

use crate::hashing::digest_bytes;
use crate::hashing::digest_chars;
use crate::merkle_tree::MerkleDirection;

verus! {

/// Ghost model of a tree node: a leaf carries its digest; an internal node
/// carries its digest and exactly two children.
pub enum TreeModel {
    Leaf { hash: Seq<char> },
    Internal { hash: Seq<char>, left: Box<TreeModel>, right: Box<TreeModel> },
}

/// The digest stored at the root of a model tree.
pub open spec fn model_hash(m: TreeModel) -> Seq<char> {
    match m {
        TreeModel::Leaf { hash } => hash,
        TreeModel::Internal { hash, .. } => hash,
    }
}

/// Well-formedness: every internal node's digest is the digest of its
/// children's concatenated digests, left then right.
pub open spec fn model_wf(m: TreeModel) -> bool
    decreases m,
{
    match m {
        TreeModel::Leaf { .. } => true,
        TreeModel::Internal { hash, left, right } => {
            &&& hash == digest_chars(model_hash(*left) + model_hash(*right))
            &&& model_wf(*left)
            &&& model_wf(*right)
        },
    }
}

/// The internal node that pairing two nodes produces.
pub open spec fn pair_model(a: TreeModel, b: TreeModel) -> TreeModel {
    TreeModel::Internal {
        hash: digest_chars(model_hash(a) + model_hash(b)),
        left: Box::new(a),
        right: Box::new(b),
    }
}

/// One level of bottom-up reduction: consecutive pairs become internal nodes,
/// in order; an unpaired final node is carried forward unchanged.
pub open spec fn reduce_level(nodes: Seq<TreeModel>) -> Seq<TreeModel>
    decreases nodes.len(),
{
    if nodes.len() >= 2 {
        seq![pair_model(nodes[0], nodes[1])] + reduce_level(nodes.skip(2))
    } else {
        nodes
    }
}

/// A reduced level holds one node for each pair and one for a leftover.
pub proof fn lemma_reduce_level_len(nodes: Seq<TreeModel>)
    ensures
        reduce_level(nodes).len() == (nodes.len() + 1) / 2,
    decreases nodes.len(),
{
    if nodes.len() >= 2 {
        lemma_reduce_level_len(nodes.skip(2));
    }
}

/// Reduce level by level until a single node remains; that node is the root.
/// An empty sequence reduces to the sentinel root: a childless node with an
/// empty hash.
pub open spec fn reduce_to_root(nodes: Seq<TreeModel>) -> TreeModel
    decreases nodes.len(),
        when true
        via reduce_to_root_decreases
{
    if nodes.len() == 0 {
        TreeModel::Leaf { hash: Seq::empty() }
    } else if nodes.len() == 1 {
        nodes[0]
    } else {
        reduce_to_root(reduce_level(nodes))
    }
}

#[via_fn]
proof fn reduce_to_root_decreases(nodes: Seq<TreeModel>) {
    if nodes.len() >= 2 {
        lemma_reduce_level_len(nodes);
    }
}

/// The digests of a sequence of data blocks, in order.
pub open spec fn leaf_digests(blocks: Seq<Seq<u8>>) -> Seq<Seq<char>> {
    blocks.map(|i: int, b: Seq<u8>| digest_bytes(b))
}

/// The tree that building from the given leaf digests produces.
pub open spec fn build_model(leaf_hashes: Seq<Seq<char>>) -> TreeModel {
    reduce_to_root(leaf_hashes.map(|i: int, h: Seq<char>| TreeModel::Leaf { hash: h }))
}

/// Whether some node of the tree carries the given digest.
pub open spec fn model_contains(m: TreeModel, target: Seq<char>) -> bool
    decreases m,
{
    ||| model_hash(m) == target
    ||| match m {
        TreeModel::Leaf { .. } => false,
        TreeModel::Internal { left, right, .. } => {
            model_contains(*left, target) || model_contains(*right, target)
        },
    }
}

/// Depth-first search for the first node carrying the target digest: the node
/// itself is checked before its children, the left subtree before the right.
/// On success the path runs from the matched node up to the searched root.
pub open spec fn spec_find(m: TreeModel, target: Seq<char>) -> Option<Seq<TreeModel>>
    decreases m,
{
    if model_hash(m) == target {
        Some(seq![m])
    } else {
        match m {
            TreeModel::Leaf { .. } => None,
            TreeModel::Internal { left, right, .. } => {
                let sub = if spec_find(*left, target) is Some {
                    spec_find(*left, target)
                } else {
                    spec_find(*right, target)
                };
                match sub {
                    Some(path) => Some(path.push(m)),
                    None => None,
                }
            },
        }
    }
}

/// One upward step of a root-to-leaf path: the parent is internal and the
/// child is one of its two children.
pub open spec fn path_step(child: TreeModel, parent: TreeModel) -> bool {
    match parent {
        TreeModel::Leaf { .. } => false,
        TreeModel::Internal { left, right, .. } => child == *left || child == *right,
    }
}

/// A path as `spec_find` returns it: non-empty, starting at a node carrying
/// the target digest, each element a child of the next.
pub open spec fn valid_path(path: Seq<TreeModel>, target: Seq<char>) -> bool {
    &&& path.len() >= 1
    &&& model_hash(path[0]) == target
    &&& forall|i: int| 0 <= i < path.len() - 1 ==> path_step(#[trigger] path[i], path[i + 1])
}

/// The sibling entry recorded for one step: the side names where the sibling
/// stands, and the hash is the sibling's. A child matching the left child's
/// hash has its sibling on the right; any other child is taken for the right
/// child, whose sibling is on the left.
pub open spec fn direction_entry(child: TreeModel, parent: TreeModel) -> (MerkleDirection, Seq<
    char,
>) {
    match parent {
        TreeModel::Leaf { .. } => (MerkleDirection::Left, Seq::empty()),
        TreeModel::Internal { left, right, .. } => {
            if model_hash(*left) == model_hash(child) {
                (MerkleDirection::Right, model_hash(*right))
            } else {
                (MerkleDirection::Left, model_hash(*left))
            }
        },
    }
}

/// The sibling entries along a path, one for each consecutive (child, parent)
/// pair, from the matched node upward.
pub open spec fn path_entries(path: Seq<TreeModel>) -> Seq<(MerkleDirection, Seq<char>)> {
    Seq::new((path.len() - 1) as nat, |i: int| direction_entry(path[i], path[i + 1]))
}

/// The full proof for a path: a seed entry carrying the matched node's own
/// digest, then the sibling entries. The seed's direction is a placeholder
/// that verification ignores: the opposite of the first sibling direction, or
/// `Left` when there is no sibling entry.
pub open spec fn spec_proof_of_path(path: Seq<TreeModel>) -> Seq<(MerkleDirection, Seq<char>)> {
    let entries = path_entries(path);
    let seed_dir = if entries.len() > 0 && entries[0].0 is Left {
        MerkleDirection::Right
    } else {
        MerkleDirection::Left
    };
    seq![(seed_dir, model_hash(path[0]))] + entries
}

/// The proof that searching the tree for the target digest yields, empty when
/// the digest is absent.
pub open spec fn spec_proof(m: TreeModel, target: Seq<char>) -> Seq<(MerkleDirection, Seq<char>)> {
    match spec_find(m, target) {
        Some(path) => spec_proof_of_path(path),
        None => Seq::empty(),
    }
}

/// One folding step: a `Left` sibling is prepended, a `Right` sibling
/// appended, and the concatenation digested.
pub open spec fn apply_entry(entry: (MerkleDirection, Seq<char>), acc: Seq<char>) -> Seq<char> {
    if entry.0 is Left {
        digest_chars(entry.1 + acc)
    } else {
        digest_chars(acc + entry.1)
    }
}

/// Fold sibling entries over a running digest, in order.
pub open spec fn fold_hashes(entries: Seq<(MerkleDirection, Seq<char>)>, acc: Seq<char>) -> Seq<
    char,
>
    decreases entries.len(),
{
    if entries.len() == 0 {
        acc
    } else {
        fold_hashes(entries.drop_first(), apply_entry(entries[0], acc))
    }
}

/// Folding one more entry at the end applies that entry to the fold so far.
pub proof fn lemma_fold_snoc(
    entries: Seq<(MerkleDirection, Seq<char>)>,
    entry: (MerkleDirection, Seq<char>),
    acc: Seq<char>,
)
    ensures
        fold_hashes(entries.push(entry), acc) == apply_entry(entry, fold_hashes(entries, acc)),
    decreases entries.len(),
{
    if entries.len() == 0 {
        assert(entries.push(entry)[0] == entry);
        assert(entries.push(entry).drop_first() =~= entries);
        assert(fold_hashes(entries.push(entry), acc) == fold_hashes(
            entries,
            apply_entry(entry, acc),
        ));
    } else {
        assert(entries.push(entry)[0] == entries[0]);
        assert(entries.push(entry).drop_first() =~= entries.drop_first().push(entry));
        lemma_fold_snoc(entries.drop_first(), entry, apply_entry(entries[0], acc));
        assert(fold_hashes(entries.push(entry), acc) == fold_hashes(
            entries.drop_first().push(entry),
            apply_entry(entries[0], acc),
        ));
    }
}

/// What verifying a proof returns: the empty string for an empty proof, else
/// the fold of the sibling entries over the seed entry's digest.
pub open spec fn verify_model(proof: Seq<(MerkleDirection, Seq<char>)>) -> Seq<char> {
    if proof.len() == 0 {
        Seq::empty()
    } else {
        fold_hashes(proof.drop_first(), proof[0].1)
    }
}

/// The ghost value of an authentication path: each entry's side, paired with
/// the characters of its hash.
pub open spec fn proof_model(proof: Seq<(MerkleDirection, String)>) -> Seq<(MerkleDirection, Seq<
    char,
>)> {
    proof.map(|i: int, e: (MerkleDirection, String)| (e.0, e.1@))
}

/// A search succeeds exactly when some node of the tree carries the target.
pub proof fn lemma_find_contains(m: TreeModel, target: Seq<char>)
    ensures
        spec_find(m, target) is Some <==> model_contains(m, target),
    decreases m,
{
    match m {
        TreeModel::Leaf { .. } => {},
        TreeModel::Internal { left, right, .. } => {
            lemma_find_contains(*left, target);
            lemma_find_contains(*right, target);
        },
    }
}

/// A found path is a valid upward path ending at the searched root.
pub proof fn lemma_find_valid(m: TreeModel, target: Seq<char>)
    ensures
        spec_find(m, target) matches Some(path) ==> valid_path(path, target) && path[path.len()
            - 1] == m,
    decreases m,
{
    match m {
        TreeModel::Leaf { .. } => {},
        TreeModel::Internal { left, right, .. } => {
            lemma_find_valid(*left, target);
            lemma_find_valid(*right, target);
        },
    }
}

} // verus!
