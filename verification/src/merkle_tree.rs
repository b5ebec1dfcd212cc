//! The built tree and the proof engine: lookup of a digest, construction of
//! an authentication path, and verification of such a path by hash-folding.

use std::rc::Rc;

use vstd::prelude::*;

use crate::hashing::digest_pair;
use crate::model::TreeModel;
use crate::model::direction_entry;
use crate::model::fold_hashes;
use crate::model::lemma_find_contains;
use crate::model::lemma_find_valid;
use crate::model::lemma_fold_snoc;
use crate::model::model_contains;
use crate::model::model_hash;
use crate::model::model_wf;
use crate::model::path_entries;
use crate::model::path_step;
use crate::model::proof_model;
use crate::model::spec_find;
use crate::model::spec_proof;
use crate::model::spec_proof_of_path;
use crate::model::valid_path;
use crate::model::verify_model;

verus! {

/// A node of a built tree: its digest, and for an internal node its two
/// children, shared read-only. A childless node is a leaf; the sentinel root
/// of an empty tree is a childless node with an empty hash.
#[derive(Clone, Debug)]
pub struct MerkleTree {
    pub hash: String,
    pub children: Option<(Rc<MerkleTree>, Rc<MerkleTree>)>,
}

/// The side that a sibling occupies relative to the node being folded.
#[derive(PartialEq, Eq, Structural, Clone, Copy, Debug)]
pub enum MerkleDirection {
    Left,
    Right,
}

/// The ghost tree that a node stands for.
pub open spec fn tree_model(t: MerkleTree) -> TreeModel
    decreases t,
{
    match t.children {
        Option::None => TreeModel::Leaf { hash: t.hash@ },
        Option::Some(c) => TreeModel::Internal {
            hash: t.hash@,
            left: Box::new(tree_model(*c.0)),
            right: Box::new(tree_model(*c.1)),
        },
    }
}

impl View for MerkleTree {
    type V = TreeModel;

    open spec fn view(&self) -> TreeModel {
        tree_model(*self)
    }
}

/// A node's stored hash is the digest its model carries.
pub proof fn lemma_model_hash(t: &MerkleTree)
    ensures
        model_hash(tree_model(*t)) == t.hash@,
{
    match t.children {
        Option::None => {},
        Option::Some(_) => {},
    }
}

/// The ghost value of a sequence of shared nodes.
pub open spec fn node_models(nodes: Seq<Rc<MerkleTree>>) -> Seq<TreeModel> {
    nodes.map(|i: int, n: Rc<MerkleTree>| n@)
}

impl MerkleTree {
    /// Depth-first search for the first node whose digest equals `hash`,
    /// checking a node before its children and the left subtree before the
    /// right. On success the returned path runs from the matched node up to
    /// `tree` itself; `None` exactly when no node carries the digest.
    pub fn find(tree: Rc<MerkleTree>, hash: String) -> (r: Option<Vec<Rc<MerkleTree>>>)
        ensures
            r is Some <==> spec_find(tree@, hash@) is Some,
            r matches Some(path) ==> Some(node_models(path@)) == spec_find(tree@, hash@),
        decreases tree,
    {
        if tree.hash == hash {
            proof {
                lemma_model_hash(&*tree);
            }
            let mut path: Vec<Rc<MerkleTree>> = Vec::new();
            path.push(tree);
            proof {
                assert(node_models(path@) =~= seq![path@[0]@]);
            }
            return Some(path);
        }
        proof {
            lemma_model_hash(&*tree);
        }
        match &tree.children {
            Option::None => None,
            Option::Some(c) => {
                let found = match Self::find(Rc::clone(&c.0), hash.clone()) {
                    Option::Some(path) => Option::Some(path),
                    Option::None => Self::find(Rc::clone(&c.1), hash),
                };
                match found {
                    Option::None => None,
                    Option::Some(mut path) => {
                        let ghost sub = path@;
                        path.push(Rc::clone(&tree));
                        proof {
                            assert(node_models(path@) =~= node_models(sub).push(tree@));
                        }
                        Some(path)
                    },
                }
            },
        }
    }

    /// The sibling entry for one (child, parent) step of a path: which side
    /// the sibling occupies, and its hash. A child whose hash equals the left
    /// child's hash has its sibling on the right; any other child is taken
    /// for the right child, whose sibling is on the left.
    fn get_direction_hash_from_pair(child: Rc<MerkleTree>, parent: Rc<MerkleTree>) -> (r: (
        MerkleDirection,
        String,
    ))
        requires
            parent@ is Internal,
        ensures
            (r.0, r.1@) == direction_entry(child@, parent@),
    {
        proof {
            lemma_model_hash(&*child);
        }
        match &parent.children {
            Option::Some(c) => {
                proof {
                    lemma_model_hash(&*c.0);
                    lemma_model_hash(&*c.1);
                }
                if c.0.hash == child.hash {
                    (MerkleDirection::Right, c.1.hash.clone())
                } else {
                    (MerkleDirection::Left, c.0.hash.clone())
                }
            },
            Option::None => vstd::pervasive::unreached(),
        }
    }

    /// Build the authentication path for `hash`: `None` exactly when no node
    /// of the tree carries the digest; otherwise a seed entry holding the
    /// matched node's own hash, then one sibling entry per step from the
    /// matched node up to the root. The seed's direction is a placeholder
    /// that verification ignores.
    pub fn construct_proof(tree: Rc<MerkleTree>, hash: String) -> (r: Option<
        Vec<(MerkleDirection, String)>,
    >)
        ensures
            r is Some <==> model_contains(tree@, hash@),
            r matches Some(p) ==> proof_model(p@) == spec_proof(tree@, hash@),
            model_wf(tree@) && r is Some ==> verify_model(spec_proof(tree@, hash@)) == model_hash(
                tree@,
            ),
    {
        let ghost root = tree@;
        let ghost target = hash@;
        proof {
            lemma_find_contains(root, target);
            lemma_find_valid(root, target);
            if model_wf(root) && model_contains(root, target) {
                crate::laws::lemma_proof_round_trip(root, target);
            }
        }
        let path = match Self::find(tree, hash) {
            Option::Some(p) => p,
            Option::None => {
                return None;
            },
        };
        let ghost pm = node_models(path@);
        let mut entries: Vec<(MerkleDirection, String)> = Vec::new();
        let mut i: usize = 0;
        while i + 1 < path.len()
            invariant
                0 <= i < path@.len(),
                pm == node_models(path@),
                pm.len() == path@.len(),
                valid_path(pm, target),
                proof_model(entries@) == path_entries(pm).subrange(0, i as int),
                entries@.len() == i,
            decreases path@.len() - i,
        {
            proof {
                assert(path_step(pm[i as int], pm[i as int + 1]));
                assert(path@[i as int]@ == pm[i as int]);
            }
            let e = Self::get_direction_hash_from_pair(
                Rc::clone(&path[i]),
                Rc::clone(&path[i + 1]),
            );
            entries.push(e);
            proof {
                assert(path_entries(pm).subrange(0, i as int + 1) =~= path_entries(pm).subrange(
                    0,
                    i as int,
                ).push(direction_entry(pm[i as int], pm[i as int + 1])));
                assert(proof_model(entries@) =~= path_entries(pm).subrange(0, i as int + 1));
            }
            i += 1;
        }
        proof {
            assert(path_entries(pm).subrange(0, i as int) =~= path_entries(pm));
        }
        let first = &path[0];
        proof {
            lemma_model_hash(&**first);
        }
        let seed_hash = first.hash.clone();
        let seed_dir = if entries.len() > 0 {
            if entries[0].0 == MerkleDirection::Left {
                MerkleDirection::Right
            } else {
                MerkleDirection::Left
            }
        } else {
            MerkleDirection::Left
        };
        let mut result = entries;
        result.insert(0, (seed_dir, seed_hash));
        proof {
            assert(proof_model(result@) =~= spec_proof_of_path(pm));
        }
        Some(result)
    }

    /// Fold a proof back to a root digest: the seed entry's hash starts the
    /// fold, and each sibling entry is concatenated on its side and digested.
    /// An empty proof yields the empty string. No comparison is made here;
    /// the caller holds the result against the root hash it trusts.
    pub fn verify_proof(proof: Vec<(MerkleDirection, String)>) -> (r: String)
        ensures
            r@ == verify_model(proof_model(proof@)),
    {
        if proof.len() == 0 {
            return String::new();
        }
        let mut current = proof[0].1.clone();
        let mut i: usize = 1;
        while i < proof.len()
            invariant
                1 <= i <= proof@.len(),
                current@ == fold_hashes(
                    proof_model(proof@).subrange(1, i as int),
                    proof@[0].1@,
                ),
            decreases proof@.len() - i,
        {
            let next = match proof[i].0 {
                MerkleDirection::Left => digest_pair(proof[i].1.as_str(), current.as_str()),
                MerkleDirection::Right => digest_pair(current.as_str(), proof[i].1.as_str()),
            };
            proof {
                let pm = proof_model(proof@);
                lemma_fold_snoc(pm.subrange(1, i as int), pm[i as int], proof@[0].1@);
                assert(pm.subrange(1, i + 1 as int) =~= pm.subrange(1, i as int).push(
                    pm[i as int],
                ));
            }
            current = next;
            i += 1;
        }
        proof {
            assert(proof_model(proof@).subrange(1, proof@.len() as int) =~= proof_model(
                proof@,
            ).drop_first());
        }
        current
    }
}

} // verus!
