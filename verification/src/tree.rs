//! Building the tree and reading its root.

use vstd::prelude::*;
use vstd::slice::slice_to_vec;
use std::marker::PhantomData;
use crate::error::MerkleError;
use crate::hash::{hash_pair, Digest, Hasher};
use crate::laws::law_layer_count;
use crate::model::{
    commitment, is_carried, merkle_root, parent_layer, sibling_index, sibling_path, tree_height,
    tree_layers,
};

verus! {

/// The contents of a stack of layers.
pub open spec fn layer_views(layers: Seq<Vec<Digest>>) -> Seq<Seq<Digest>> {
    Seq::new(layers.len(), |k: int| layers[k]@)
}

/// The last layer of the tree over `leaves` holds exactly the root.
pub proof fn lemma_last_layer_is_root<H: Hasher>(leaves: Seq<Digest>)
    requires
        leaves.len() > 0,
    ensures
        tree_layers::<H>(leaves).len() > 0,
        tree_layers::<H>(leaves).last() =~= seq![merkle_root::<H>(leaves)],
    decreases leaves.len(),
{
    if leaves.len() > 1 {
        lemma_last_layer_is_root::<H>(parent_layer::<H>(leaves));
    }
}

/// The layers above the first are the layers of the tree over the second.
pub proof fn lemma_layers_unfold<H: Hasher>(leaves: Seq<Digest>)
    ensures
        tree_layers::<H>(leaves).len() > 0,
        tree_layers::<H>(leaves)[0] == leaves,
        leaves.len() <= 1 ==> tree_layers::<H>(leaves).len() == 1,
        leaves.len() > 1 ==> tree_layers::<H>(leaves).skip(1) =~= tree_layers::<H>(
            parent_layer::<H>(leaves),
        ),
    decreases leaves.len(),
{
    if leaves.len() > 1 {
        lemma_layers_unfold::<H>(parent_layer::<H>(leaves));
    }
}

/// A Merkle tree over a fixed sequence of leaves. Its view is that sequence.
pub struct MerkleTree<H: Hasher> {
    layers: Vec<Vec<Digest>>,
    hasher: PhantomData<H>,
}

impl<H: Hasher> View for MerkleTree<H> {
    type V = Seq<Digest>;

    closed spec fn view(&self) -> Seq<Digest> {
        self.layers@[0]@
    }
}

/// Computes the layer above `layer`.
fn build_parent_layer<H: Hasher>(layer: &Vec<Digest>) -> (above: Vec<Digest>)
    ensures
        above@ == parent_layer::<H>(layer@),
{
    let pairs: usize = layer.len() / 2;
    let mut above: Vec<Digest> = Vec::with_capacity(pairs + layer.len() % 2);
    let mut k: usize = 0;
    while k < pairs
        invariant
            k <= pairs,
            pairs == layer.len() / 2,
            above.len() == k,
            forall|j: int| 0 <= j < k ==> above[j] == parent_layer::<H>(layer@)[j],
        decreases pairs - k,
    {
        let node = hash_pair::<H>(&layer[2 * k], &layer[2 * k + 1]);
        above.push(node);
        k += 1;
    }
    if layer.len() % 2 == 1 {
        above.push(layer[layer.len() - 1]);
    }
    assert(above@ =~= parent_layer::<H>(layer@));
    above
}

impl<H: Hasher> MerkleTree<H> {
    #[verifier::type_invariant]
    spec fn well_formed(&self) -> bool {
        &&& self.layers.len() > 0
        &&& layer_views(self.layers@) == tree_layers::<H>(self.layers@[0]@)
    }

    /// Builds the tree over `leaves`, which may be empty.
    pub fn build(leaves: &[Digest]) -> (tree: Self)
        ensures
            tree@ == leaves@,
    {
        let mut layers: Vec<Vec<Digest>> = Vec::new();
        let mut current: Vec<Digest> = slice_to_vec(leaves);
        while current.len() > 1
            invariant
                layer_views(layers@) + tree_layers::<H>(current@) == tree_layers::<H>(leaves@),
                layers.len() == 0 ==> current@ == leaves@,
                layers.len() > 0 ==> layers[0]@ == leaves@,
            decreases current.len(),
        {
            let above = build_parent_layer::<H>(&current);
            assert(layer_views(layers@.push(current)) =~= layer_views(layers@) + seq![current@]);
            layers.push(current);
            current = above;
        }
        assert(layer_views(layers@.push(current)) =~= layer_views(layers@) + seq![current@]);
        layers.push(current);
        MerkleTree { layers, hasher: PhantomData }
    }

    /// Number of leaves.
    pub fn leaf_count(&self) -> (count: usize)
        ensures
            count == self@.len(),
    {
        proof {
            use_type_invariant(self);
        }
        self.layers[0].len()
    }

    /// All layers, leaves first.
    pub fn layers(&self) -> (layers: &Vec<Vec<Digest>>)
        ensures
            layer_views(layers@) == tree_layers::<H>(self@),
    {
        proof {
            use_type_invariant(self);
        }
        &self.layers
    }

    /// Number of pairing steps between the leaves and the root.
    pub fn depth(&self) -> (depth: usize)
        ensures
            depth == tree_height(self@.len()),
    {
        proof {
            use_type_invariant(self);
            law_layer_count::<H>(self@);
        }
        self.layers.len() - 1
    }

    /// The root, which commits to all leaves; a tree without leaves has none.
    pub fn root(&self) -> (result: Result<Digest, MerkleError>)
        ensures
            result == commitment::<H>(self@),
    {
        proof {
            use_type_invariant(self);
        }
        if self.layers[0].len() == 0 {
            return Err(MerkleError::EmptyTree);
        }
        proof {
            lemma_last_layer_is_root::<H>(self@);
            assert(layer_views(self.layers@).last() == self.layers@.last()@);
        }
        let top = &self.layers[self.layers.len() - 1];
        Ok(top[0])
    }

    /// The inclusion proof for the leaf at `index`: the siblings met on the
    /// way from that leaf to the root, lowest first.
    pub fn generate(&self, index: usize) -> (result: Result<Vec<Digest>, MerkleError>)
        ensures
            index >= self@.len() ==> result == Err::<Vec<Digest>, MerkleError>(
                MerkleError::IndexOutOfRange,
            ),
            index < self@.len() ==> result is Ok && result->Ok_0@ == sibling_path::<H>(
                self@,
                index as int,
            ),
    {
        proof {
            use_type_invariant(self);
        }
        if index >= self.layers[0].len() {
            return Err(MerkleError::IndexOutOfRange);
        }
        let mut path: Vec<Digest> = Vec::new();
        let mut pos: usize = index;
        let mut level: usize = 0;
        assert(layer_views(self.layers@).skip(0) =~= layer_views(self.layers@));
        while level + 1 < self.layers.len()
            invariant
                level < self.layers.len(),
                layer_views(self.layers@).skip(level as int) == tree_layers::<H>(
                    self.layers@[level as int]@,
                ),
                pos < self.layers@[level as int].len(),
                path@ + sibling_path::<H>(self.layers@[level as int]@, pos as int)
                    == sibling_path::<H>(self@, index as int),
            decreases self.layers.len() - level,
        {
            let layer = &self.layers[level];
            proof {
                lemma_layers_unfold::<H>(layer@);
                let views = layer_views(self.layers@);
                assert(views.skip(level as int).len() >= 2);
                assert(views.skip(level as int).skip(1) =~= views.skip(level + 1));
                assert(views.skip(level + 1)[0] == self.layers@[level + 1]@);
                lemma_layers_unfold::<H>(parent_layer::<H>(layer@));
            }
            let partner: usize = if pos % 2 == 0 {
                pos + 1
            } else {
                pos - 1
            };
            assert(partner == sibling_index(pos as int));
            assert(partner < layer.len() <==> !is_carried(pos as int, layer.len() as int));
            if partner < layer.len() {
                let ghost before = path@;
                path.push(layer[partner]);
                assert(path@ + sibling_path::<H>(parent_layer::<H>(layer@), pos as int / 2)
                    =~= before + sibling_path::<H>(layer@, pos as int));
            }
            pos = pos / 2;
            level += 1;
        }
        proof {
            lemma_layers_unfold::<H>(self.layers@[level as int]@);
            assert(path@ + Seq::<Digest>::empty() =~= path@);
        }
        Ok(path)
    }
}

} // verus!
