//! A tree held behind a builder that keeps its leaves: nodes are a tagged
//! variant, either a leaf owning its data block or an internal node owning
//! two children. The builder accumulates blocks, and building stores the
//! root beside the leaves; inserting afterwards discards the root, since the
//! tree is derived state.

use std::rc::Rc;

use vstd::prelude::*;

use crate::hashing::digest_block;
use crate::hashing::digest_bytes;
use crate::hashing::digest_pair;
use crate::model::TreeModel;
use crate::model::build_model;
use crate::model::model_wf;
use crate::model::leaf_digests;
use crate::model::lemma_reduce_level_len;
use crate::model::model_hash;
use crate::model::pair_model;
use crate::model::reduce_level;
use crate::model::reduce_to_root;

verus! {

/// A node: either a leaf owning a data block, or an internal node owning
/// exactly two children.
#[derive(Clone)]
pub enum MerkleType {
    Leaf(Rc<MerkleLeaf>),
    Node(Rc<MerkleNode>),
}

/// A grouping of shared leaf collections.
#[derive(Clone)]
pub struct MerkleLeafs {
    leafs: Vec<Rc<MerkleLeafs>>,
}

/// An internal node: its digest and its two children, left then right.
pub struct MerkleNode {
    hash: String,
    children: (Rc<MerkleType>, Rc<MerkleType>),
}

/// A leaf: the digest of a data block, beside the block itself.
#[derive(Clone)]
pub struct MerkleLeaf {
    hash: String,
    data: Vec<u8>,
}

/// The ghost tree that a node stands for.
pub closed spec fn merkle_type_model(t: MerkleType) -> TreeModel
    decreases t,
{
    match t {
        MerkleType::Leaf(l) => TreeModel::Leaf { hash: l.hash@ },
        MerkleType::Node(n) => TreeModel::Internal {
            hash: n.hash@,
            left: Box::new(merkle_type_model(*n.children.0)),
            right: Box::new(merkle_type_model(*n.children.1)),
        },
    }
}

impl View for MerkleType {
    type V = TreeModel;

    closed spec fn view(&self) -> TreeModel {
        merkle_type_model(*self)
    }
}

/// The ghost value of a sequence of shared nodes.
pub open spec fn merkle_type_models(nodes: Seq<Rc<MerkleType>>) -> Seq<TreeModel> {
    nodes.map(|i: int, n: Rc<MerkleType>| n@)
}

impl MerkleType {
    /// The digest stored at this node.
    pub fn hash(&self) -> (r: String)
        ensures
            r@ == model_hash(self@),
    {
        match self {
            MerkleType::Leaf(merkle_leaf) => merkle_leaf.hash.clone(),
            MerkleType::Node(merkle_node) => merkle_node.hash.clone(),
        }
    }
}

impl MerkleLeaf {
    /// The stored digest is the digest of the stored block.
    pub closed spec fn wf(self) -> bool {
        self.hash@ == digest_bytes(self.data@)
    }
}

/// A builder that keeps its leaves: data blocks are accumulated as digested
/// leaves, and building stores the root beside them.
pub struct MerkleTree {
    root: Option<Rc<MerkleType>>,
    leafs: Vec<Rc<MerkleLeaf>>,
}

impl View for MerkleTree {
    type V = Seq<Seq<u8>>;

    /// The builder stands for the ordered blocks it has accumulated.
    closed spec fn view(&self) -> Seq<Seq<u8>> {
        self.leafs@.map(|i: int, l: Rc<MerkleLeaf>| l.data@)
    }
}

impl MerkleTree {
    /// Every pending leaf carries the digest of its own block.
    pub closed spec fn wf(self) -> bool {
        forall|i: int| 0 <= i < self.leafs@.len() ==> (*#[trigger] self.leafs@[i]).wf()
    }

    /// The ghost tree stored as the root, if one has been built.
    pub closed spec fn spec_root(self) -> Option<TreeModel> {
        match self.root {
            Option::Some(r) => Option::Some(r@),
            Option::None => Option::None,
        }
    }

    /// Digest every block eagerly and hold the pending leaves in order,
    /// with no root built yet. An empty input is legal.
    pub fn new(data: Vec<Vec<u8>>) -> (r: Self)
        ensures
            r@ == data.deep_view(),
            r.wf(),
            r.spec_root() is None,
    {
        let ghost orig = data.deep_view();
        let mut data = data;
        let mut leafs: Vec<Rc<MerkleLeaf>> = Vec::new();
        while data.len() > 0
            invariant
                leafs@.len() + data@.len() == orig.len(),
                forall|j: int| 0 <= j < leafs@.len() ==> (*#[trigger] leafs@[j]).wf(),
                forall|j: int| 0 <= j < leafs@.len() ==> (#[trigger] leafs@[j]).data@ == orig[j],
                forall|j: int|
                    0 <= j < data@.len() ==> (#[trigger] data@[j])@ == orig[leafs@.len() + j],
            decreases data@.len(),
        {
            let d = data.remove(0);
            let hash = digest_block(d.as_slice());
            leafs.push(Rc::new(MerkleLeaf { hash, data: d }));
        }
        let r = MerkleTree { root: None, leafs };
        proof {
            assert(r@ =~= orig);
        }
        r
    }

    /// Digest one block and append it as a pending leaf. The stored root is
    /// discarded: the tree no longer reflects the leaves.
    pub fn insert(&mut self, data: Vec<u8>)
        requires
            old(self).wf(),
        ensures
            final(self)@ == old(self)@.push(data@),
            final(self).wf(),
            final(self).spec_root() is None,
    {
        let ghost block = data@;
        let hash = digest_block(data.as_slice());
        let leaf = Rc::new(MerkleLeaf { hash, data });
        self.root = None;
        self.leafs.push(leaf);
        proof {
            assert(self@ =~= old(self)@.push(block));
        }
    }

    /// Reduce a non-empty level of nodes to a single root: pair consecutive
    /// nodes in order, carry an unpaired final node forward unchanged, and
    /// repeat on the new level until one node remains.
    fn create_nodes(nodes: Vec<Rc<MerkleType>>) -> (r: Vec<Rc<MerkleType>>)
        requires
            nodes@.len() >= 1,
        ensures
            r@.len() == 1,
            r@[0]@ == reduce_to_root(merkle_type_models(nodes@)),
        decreases nodes@.len(),
    {
        if nodes.len() == 1 {
            return nodes;
        }
        let ghost ms = merkle_type_models(nodes@);
        let mut new_nodes: Vec<Rc<MerkleType>> = Vec::new();
        let mut i: usize = 0;
        proof {
            assert(ms.skip(0) =~= ms);
            assert(merkle_type_models(new_nodes@) + reduce_level(ms) =~= reduce_level(ms));
        }
        while i + 1 < nodes.len()
            invariant
                i % 2 == 0,
                i <= nodes@.len(),
                nodes@.len() >= 2,
                ms == merkle_type_models(nodes@),
                ms.len() == nodes@.len(),
                merkle_type_models(new_nodes@) + reduce_level(ms.skip(i as int)) == reduce_level(
                    ms,
                ),
            decreases nodes@.len() - i,
        {
            let left = &nodes[i];
            let right = &nodes[i + 1];
            let hash = digest_pair(left.hash().as_str(), right.hash().as_str());
            let node = Rc::new(
                MerkleType::Node(
                    Rc::new(
                        MerkleNode { hash, children: (Rc::clone(left), Rc::clone(right)) },
                    ),
                ),
            );
            let ghost prev = new_nodes@;
            new_nodes.push(node);
            proof {
                let rest = ms.skip(i as int);
                assert(rest[0] == ms[i as int]);
                assert(rest[1] == ms[i as int + 1]);
                assert(rest.skip(2) =~= ms.skip(i as int + 2));
                assert(merkle_type_models(new_nodes@) =~= merkle_type_models(prev).push(
                    pair_model(ms[i as int], ms[i as int + 1]),
                ));
                assert(merkle_type_models(new_nodes@) + reduce_level(ms.skip(i as int + 2))
                    =~= merkle_type_models(prev) + reduce_level(rest));
            }
            i += 2;
        }
        if i < nodes.len() {
            let ghost prev = new_nodes@;
            new_nodes.push(Rc::clone(&nodes[i]));
            proof {
                let rest = ms.skip(i as int);
                assert(rest.len() == 1);
                assert(rest[0] == ms[i as int]);
                assert(reduce_level(rest) =~= rest);
                assert(merkle_type_models(new_nodes@) =~= merkle_type_models(prev).push(
                    ms[i as int],
                ));
                assert(merkle_type_models(new_nodes@) =~= merkle_type_models(prev)
                    + reduce_level(rest));
            }
        } else {
            proof {
                assert(ms.skip(i as int).len() == 0);
                assert(reduce_level(ms.skip(i as int)) =~= Seq::<TreeModel>::empty());
                assert(merkle_type_models(new_nodes@) =~= merkle_type_models(new_nodes@)
                    + reduce_level(ms.skip(i as int)));
            }
        }
        proof {
            lemma_reduce_level_len(ms);
            assert(merkle_type_models(new_nodes@) == reduce_level(ms));
        }
        Self::create_nodes(new_nodes)
    }

    /// Build the tree from the pending leaves and store its root: each leaf
    /// becomes a leaf node, in insertion order, and levels are then
    /// reduced bottom-up until one node remains. The leaves are kept
    /// unchanged. An empty builder stores the sentinel root: an empty hash
    /// and no children.
    pub fn create_tree(&mut self)
        requires
            old(self).wf(),
        ensures
            final(self)@ == old(self)@,
            final(self).wf(),
            final(self).spec_root() == Some(build_model(leaf_digests(old(self)@))),
            model_wf(build_model(leaf_digests(old(self)@))),
    {
        proof {
            crate::laws::lemma_build_wf(leaf_digests(self@));
        }
        let ghost lm = leaf_digests(self@).map(|i: int, h: Seq<char>| TreeModel::Leaf { hash: h });
        let mut initial: Vec<Rc<MerkleType>> = Vec::new();
        let mut i: usize = 0;
        while i < self.leafs.len()
            invariant
                i <= self.leafs@.len(),
                *self == *old(self),
                old(self).wf(),
                lm == leaf_digests(self@).map(
                    |j: int, h: Seq<char>| TreeModel::Leaf { hash: h },
                ),
                lm.len() == self.leafs@.len(),
                merkle_type_models(initial@) == lm.subrange(0, i as int),
                initial@.len() == i,
            decreases self.leafs@.len() - i,
        {
            let leaf = &self.leafs[i];
            let node = Rc::new(MerkleType::Leaf(Rc::clone(leaf)));
            let ghost prev = initial@;
            initial.push(node);
            proof {
                assert((*self.leafs@[i as int]).wf());
                assert(merkle_type_models(initial@) =~= merkle_type_models(prev).push(
                    lm[i as int],
                ));
                assert(lm.subrange(0, i as int + 1) =~= lm.subrange(0, i as int).push(
                    lm[i as int],
                ));
            }
            i += 1;
        }
        proof {
            assert(merkle_type_models(initial@) =~= lm);
        }
        if initial.len() == 0 {
            let sentinel = MerkleLeaf { hash: String::new(), data: Vec::new() };
            self.root = Some(Rc::new(MerkleType::Leaf(Rc::new(sentinel))));
            return ;
        }
        let created = Self::create_nodes(initial);
        self.root = Some(Rc::clone(&created[0]));
    }
}

} // verus!
