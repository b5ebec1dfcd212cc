//! The tree builder: accumulates an ordered sequence of data blocks as
//! digested leaves, then builds the tree bottom-up, pairing consecutive
//! nodes and carrying an unpaired final node forward unchanged to the next
//! level.

use std::rc::Rc;

use vstd::prelude::*;

use crate::hashing::digest_block;
use crate::hashing::digest_bytes;
use crate::hashing::digest_pair;
use crate::merkle_tree::MerkleTree;
use crate::merkle_tree::lemma_model_hash;
use crate::merkle_tree::node_models;
use crate::model::TreeModel;
use crate::model::build_model;
use crate::model::model_wf;
use crate::model::leaf_digests;
use crate::model::lemma_reduce_level_len;
use crate::model::pair_model;
use crate::model::reduce_level;
use crate::model::reduce_to_root;

verus! {

/// A data block paired with its precomputed digest, held by the factory
/// until the tree is built.
#[derive(Clone, Debug)]
pub struct MerkleLeaf {
    hash: String,
    data: Vec<u8>,
}

impl View for MerkleLeaf {
    type V = Seq<u8>;

    /// A pending leaf stands for the block it holds.
    closed spec fn view(&self) -> Seq<u8> {
        self.data@
    }
}

impl MerkleLeaf {
    /// The stored digest is the digest of the stored block.
    pub closed spec fn wf(self) -> bool {
        self.hash@ == digest_bytes(self.data@)
    }
}

/// Accumulates data blocks as digested leaves, in insertion order.
#[derive(Clone, Debug)]
pub struct MerkleTreeFactory {
    leafs: Vec<Rc<MerkleLeaf>>,
}

impl View for MerkleTreeFactory {
    type V = Seq<Seq<u8>>;

    /// The factory stands for the ordered blocks it has accumulated.
    closed spec fn view(&self) -> Seq<Seq<u8>> {
        self.leafs@.map(|i: int, l: Rc<MerkleLeaf>| l@)
    }
}

impl MerkleTreeFactory {
    /// Every pending leaf carries the digest of its own block.
    pub closed spec fn wf(self) -> bool {
        forall|i: int| 0 <= i < self.leafs@.len() ==> (*#[trigger] self.leafs@[i]).wf()
    }

    /// Digest every block eagerly and hold the pending leaves in order. An
    /// empty input is legal and yields an empty factory.
    pub fn new(data: Vec<Vec<u8>>) -> (r: Self)
        ensures
            r@ == data.deep_view(),
            r.wf(),
    {
        let ghost orig = data.deep_view();
        let mut data = data;
        let mut leafs: Vec<Rc<MerkleLeaf>> = Vec::new();
        while data.len() > 0
            invariant
                leafs@.len() + data@.len() == orig.len(),
                forall|j: int| 0 <= j < leafs@.len() ==> (*#[trigger] leafs@[j]).wf(),
                forall|j: int| 0 <= j < leafs@.len() ==> (#[trigger] leafs@[j])@ == orig[j],
                forall|j: int|
                    0 <= j < data@.len() ==> (#[trigger] data@[j])@ == orig[leafs@.len() + j],
            decreases data@.len(),
        {
            let d = data.remove(0);
            let hash = digest_block(d.as_slice());
            leafs.push(Rc::new(MerkleLeaf { hash, data: d }));
        }
        let r = MerkleTreeFactory { leafs };
        proof {
            assert(r@ =~= orig);
        }
        r
    }

    /// Digest one block and append it as a pending leaf. Any tree built
    /// earlier is derived state and is simply built anew after this.
    pub fn insert(&mut self, data: Vec<u8>)
        requires
            old(self).wf(),
        ensures
            final(self)@ == old(self)@.push(data@),
            final(self).wf(),
    {
        let ghost block = data@;
        let hash = digest_block(data.as_slice());
        let leaf = Rc::new(MerkleLeaf { hash, data });
        self.leafs.push(leaf);
        proof {
            assert(self@ =~= old(self)@.push(block));
        }
    }

    /// Reduce a non-empty level of nodes to a single root: pair consecutive
    /// nodes in order, carry an unpaired final node forward unchanged, and
    /// repeat on the new level until one node remains.
    fn create_nodes(nodes: Vec<Rc<MerkleTree>>) -> (r: Vec<Rc<MerkleTree>>)
        requires
            nodes@.len() >= 1,
        ensures
            r@.len() == 1,
            r@[0]@ == reduce_to_root(node_models(nodes@)),
        decreases nodes@.len(),
    {
        if nodes.len() == 1 {
            return nodes;
        }
        let ghost ms = node_models(nodes@);
        let mut new_nodes: Vec<Rc<MerkleTree>> = Vec::new();
        let mut i: usize = 0;
        proof {
            assert(ms.skip(0) =~= ms);
            assert(node_models(new_nodes@) + reduce_level(ms) =~= reduce_level(ms));
        }
        while i + 1 < nodes.len()
            invariant
                i % 2 == 0,
                i <= nodes@.len(),
                nodes@.len() >= 2,
                ms == node_models(nodes@),
                ms.len() == nodes@.len(),
                node_models(new_nodes@) + reduce_level(ms.skip(i as int)) == reduce_level(ms),
            decreases nodes@.len() - i,
        {
            let left = &nodes[i];
            let right = &nodes[i + 1];
            let hash = digest_pair(left.hash.as_str(), right.hash.as_str());
            let node = Rc::new(
                MerkleTree { hash, children: Some((Rc::clone(left), Rc::clone(right))) },
            );
            let ghost prev = new_nodes@;
            new_nodes.push(node);
            proof {
                lemma_model_hash(&**left);
                lemma_model_hash(&**right);
                let rest = ms.skip(i as int);
                assert(rest[0] == ms[i as int]);
                assert(rest[1] == ms[i as int + 1]);
                assert(rest.skip(2) =~= ms.skip(i as int + 2));
                assert(node_models(new_nodes@) =~= node_models(prev).push(
                    pair_model(ms[i as int], ms[i as int + 1]),
                ));
                assert(node_models(new_nodes@) + reduce_level(ms.skip(i as int + 2))
                    =~= node_models(prev) + reduce_level(rest));
            }
            i += 2;
        }
        if i < nodes.len() {
            let ghost prev = new_nodes@;
            new_nodes.push(Rc::clone(&nodes[i]));
            proof {
                let rest = ms.skip(i as int);
                assert(rest.len() == 1);
                assert(rest[0] == ms[i as int]);
                assert(reduce_level(rest) =~= rest);
                assert(node_models(new_nodes@) =~= node_models(prev).push(ms[i as int]));
                assert(node_models(new_nodes@) =~= node_models(prev) + reduce_level(rest));
            }
        } else {
            proof {
                assert(ms.skip(i as int).len() == 0);
                assert(reduce_level(ms.skip(i as int)) =~= Seq::<TreeModel>::empty());
                assert(node_models(new_nodes@) =~= node_models(new_nodes@) + reduce_level(
                    ms.skip(i as int),
                ));
            }
        }
        proof {
            lemma_reduce_level_len(ms);
            assert(node_models(new_nodes@) == reduce_level(ms));
        }
        Self::create_nodes(new_nodes)
    }

    /// Consume the factory and build the tree: each pending leaf becomes a
    /// childless node, in insertion order, and levels are then reduced
    /// bottom-up until one node remains. An empty factory yields the
    /// sentinel root: an empty hash and no children, which callers must
    /// special-case before using it in proofs.
    pub fn create_tree(self) -> (r: Rc<MerkleTree>)
        requires
            self.wf(),
        ensures
            r@ == build_model(leaf_digests(self@)),
            model_wf(r@),
    {
        proof {
            crate::laws::lemma_build_wf(leaf_digests(self@));
        }
        let ghost lm = leaf_digests(self@).map(|i: int, h: Seq<char>| TreeModel::Leaf { hash: h });
        let mut initial: Vec<Rc<MerkleTree>> = Vec::new();
        let mut i: usize = 0;
        while i < self.leafs.len()
            invariant
                i <= self.leafs@.len(),
                self.wf(),
                lm == leaf_digests(self@).map(
                    |j: int, h: Seq<char>| TreeModel::Leaf { hash: h },
                ),
                lm.len() == self.leafs@.len(),
                node_models(initial@) == lm.subrange(0, i as int),
                initial@.len() == i,
            decreases self.leafs@.len() - i,
        {
            let leaf = &self.leafs[i];
            let node = Rc::new(MerkleTree { hash: leaf.hash.clone(), children: None });
            let ghost prev = initial@;
            initial.push(node);
            proof {
                assert((*self.leafs@[i as int]).wf());
                assert(node_models(initial@) =~= node_models(prev).push(lm[i as int]));
                assert(lm.subrange(0, i as int + 1) =~= lm.subrange(0, i as int).push(
                    lm[i as int],
                ));
            }
            i += 1;
        }
        proof {
            assert(node_models(initial@) =~= lm);
        }
        if initial.len() == 0 {
            return Rc::new(MerkleTree { hash: String::new(), children: None });
        }
        let created = Self::create_nodes(initial);
        Rc::clone(&created[0])
    }
}

} // verus!
