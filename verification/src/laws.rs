//! The library's laws, proved over the ghost model: a proof constructed for
//! a digest present in a well-formed tree folds back to the root digest, a
//! built tree is well-formed and contains every leaf digest, and building is
//! deterministic in the ordered block sequence.

use vstd::prelude::*;

use crate::hashing::digest_bytes;
use crate::model::TreeModel;
use crate::model::apply_entry;
use crate::model::build_model;
use crate::model::direction_entry;
use crate::model::fold_hashes;
use crate::model::leaf_digests;
use crate::model::lemma_find_contains;
use crate::model::lemma_find_valid;
use crate::model::lemma_reduce_level_len;
use crate::model::model_contains;
use crate::model::model_hash;
use crate::model::model_wf;
use crate::model::pair_model;
use crate::model::path_entries;
use crate::model::path_step;
use crate::model::reduce_level;
use crate::model::reduce_to_root;
use crate::model::spec_find;
use crate::model::spec_proof;
use crate::model::spec_proof_of_path;
use crate::model::valid_path;
use crate::model::verify_model;

verus! {

/// A child of a well-formed internal node is well-formed.
proof fn lemma_step_wf(child: TreeModel, parent: TreeModel)
    requires
        path_step(child, parent),
        model_wf(parent),
    ensures
        model_wf(child),
{
}

/// Along an upward path whose top is well-formed, every node is well-formed.
proof fn lemma_path_wf(path: Seq<TreeModel>, target: Seq<char>)
    requires
        valid_path(path, target),
        model_wf(path[path.len() - 1]),
    ensures
        forall|i: int| 0 <= i < path.len() ==> model_wf(#[trigger] path[i]),
    decreases path.len(),
{
    if path.len() > 1 {
        lemma_step_wf(path[path.len() - 2], path[path.len() - 1]);
        let front = path.drop_last();
        assert(valid_path(front, target)) by {
            assert(forall|i: int|
                0 <= i < front.len() - 1 ==> path_step(#[trigger] front[i], front[i + 1]));
        }
        lemma_path_wf(front, target);
        assert(forall|i: int| 0 <= i < path.len() - 1 ==> path[i] == front[i]);
    }
}

/// Folding the sibling entries of a path of well-formed nodes over the first
/// node's digest yields the last node's digest.
proof fn lemma_fold_path(path: Seq<TreeModel>)
    requires
        path.len() >= 1,
        forall|i: int| 0 <= i < path.len() - 1 ==> path_step(#[trigger] path[i], path[i + 1]),
        forall|i: int| 0 <= i < path.len() ==> model_wf(#[trigger] path[i]),
    ensures
        fold_hashes(path_entries(path), model_hash(path[0])) == model_hash(path[path.len() - 1]),
    decreases path.len(),
{
    if path.len() == 1 {
        assert(path_entries(path).len() == 0);
    } else {
        assert(path_step(path[0], path[1]));
        assert(apply_entry(direction_entry(path[0], path[1]), model_hash(path[0]))
            == model_hash(path[1]));
        let rest = path.drop_first();
        assert(path_entries(path).drop_first() =~= path_entries(rest));
        assert(path_entries(path)[0] == direction_entry(path[0], path[1]));
        assert(forall|i: int|
            0 <= i < rest.len() - 1 ==> path_step(#[trigger] rest[i], rest[i + 1]));
        assert(forall|i: int| 0 <= i < rest.len() ==> model_wf(#[trigger] rest[i]));
        lemma_fold_path(rest);
    }
}

/// Round-trip law at the tree level: for any digest present in a well-formed
/// tree, verifying the constructed proof yields the tree's root digest.
pub proof fn lemma_proof_round_trip(m: TreeModel, target: Seq<char>)
    requires
        model_wf(m),
        model_contains(m, target),
    ensures
        verify_model(spec_proof(m, target)) == model_hash(m),
{
    lemma_find_contains(m, target);
    lemma_find_valid(m, target);
    let path = spec_find(m, target)->Some_0;
    lemma_path_wf(path, target);
    lemma_fold_path(path);
    let full = spec_proof_of_path(path);
    assert(full.drop_first() =~= path_entries(path));
    assert(full[0].1 == model_hash(path[0]));
}

/// Every element of a reduced level is the pairing of two consecutive nodes,
/// or the carried-forward last node when the count is odd.
proof fn lemma_reduce_level_index(nodes: Seq<TreeModel>, i: int)
    requires
        0 <= i < reduce_level(nodes).len(),
    ensures
        2 * i + 1 < nodes.len() ==> reduce_level(nodes)[i] == pair_model(
            nodes[2 * i],
            nodes[2 * i + 1],
        ),
        2 * i + 1 == nodes.len() ==> reduce_level(nodes)[i] == nodes[2 * i],
    decreases nodes.len(),
{
    lemma_reduce_level_len(nodes);
    if nodes.len() >= 2 {
        if i == 0 {
        } else {
            lemma_reduce_level_len(nodes.skip(2));
            lemma_reduce_level_index(nodes.skip(2), i - 1);
            assert(reduce_level(nodes)[i] == reduce_level(nodes.skip(2))[i - 1]);
            assert(2 * (i - 1) + 1 < nodes.skip(2).len() ==> nodes.skip(2)[2 * (i - 1)]
                == nodes[2 * i] && nodes.skip(2)[2 * (i - 1) + 1] == nodes[2 * i + 1]);
            assert(2 * (i - 1) + 1 == nodes.skip(2).len() ==> nodes.skip(2)[2 * (i - 1)]
                == nodes[2 * i]);
        }
    }
}

/// Reducing well-formed nodes to a root yields a well-formed tree.
proof fn lemma_reduce_root_wf(nodes: Seq<TreeModel>)
    requires
        forall|i: int| 0 <= i < nodes.len() ==> model_wf(#[trigger] nodes[i]),
    ensures
        model_wf(reduce_to_root(nodes)),
    decreases nodes.len(),
{
    if nodes.len() >= 2 {
        lemma_reduce_level_len(nodes);
        let level = reduce_level(nodes);
        assert(forall|i: int| 0 <= i < level.len() ==> model_wf(#[trigger] level[i])) by {
            assert forall|i: int| 0 <= i < level.len() implies model_wf(#[trigger] level[i]) by {
                lemma_reduce_level_index(nodes, i);
            }
        }
        lemma_reduce_root_wf(level);
    }
}

/// A digest carried somewhere in one of the nodes is carried somewhere in
/// the reduced root.
proof fn lemma_reduce_root_contains(nodes: Seq<TreeModel>, h: Seq<char>)
    requires
        exists|i: int| 0 <= i < nodes.len() && model_contains(#[trigger] nodes[i], h),
    ensures
        model_contains(reduce_to_root(nodes), h),
    decreases nodes.len(),
{
    let i = choose|i: int| 0 <= i < nodes.len() && model_contains(#[trigger] nodes[i], h);
    if nodes.len() >= 2 {
        lemma_reduce_level_len(nodes);
        let level = reduce_level(nodes);
        let j = i / 2;
        lemma_reduce_level_index(nodes, j);
        assert(model_contains(level[j], h));
        lemma_reduce_root_contains(level, h);
    }
}

/// Law: the tree built from any leaf digests is well-formed.
pub proof fn lemma_build_wf(leaf_hashes: Seq<Seq<char>>)
    ensures
        model_wf(build_model(leaf_hashes)),
{
    let leaves = leaf_hashes.map(|i: int, h: Seq<char>| TreeModel::Leaf { hash: h });
    assert(forall|i: int| 0 <= i < leaves.len() ==> model_wf(#[trigger] leaves[i]));
    lemma_reduce_root_wf(leaves);
}

/// Law: the tree built from leaf digests contains each of them.
pub proof fn lemma_build_contains(leaf_hashes: Seq<Seq<char>>, i: int)
    requires
        0 <= i < leaf_hashes.len(),
    ensures
        model_contains(build_model(leaf_hashes), leaf_hashes[i]),
{
    let leaves = leaf_hashes.map(|j: int, h: Seq<char>| TreeModel::Leaf { hash: h });
    assert(model_contains(leaves[i], leaf_hashes[i]));
    lemma_reduce_root_contains(leaves, leaf_hashes[i]);
}

/// Law: round-trip inclusion. For a non-empty ordered block sequence and any
/// block in it, the proof constructed from the built tree for that block's
/// digest verifies back to the built tree's root hash.
pub proof fn lemma_round_trip_inclusion(blocks: Seq<Seq<u8>>, i: int)
    requires
        0 <= i < blocks.len(),
    ensures
        verify_model(spec_proof(build_model(leaf_digests(blocks)), digest_bytes(blocks[i])))
            == model_hash(build_model(leaf_digests(blocks))),
{
    let hashes = leaf_digests(blocks);
    lemma_build_wf(hashes);
    lemma_build_contains(hashes, i);
    lemma_proof_round_trip(build_model(hashes), hashes[i]);
}

/// Law: determinism. Building from equal ordered block sequences yields
/// equal root hashes.
pub proof fn lemma_build_deterministic(a: Seq<Seq<u8>>, b: Seq<Seq<u8>>)
    requires
        a == b,
    ensures
        model_hash(build_model(leaf_digests(a))) == model_hash(build_model(leaf_digests(b))),
{
}

} // verus!
