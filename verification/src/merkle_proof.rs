//! Circuit assignment for proving Merkle tree membership.
//!
//! The assignment holds the public input (the root) and the private
//! witnesses (the leaf, the sibling path and the direction bits). The
//! rank-1 constraints the host layer synthesizes from it enforce exactly
//! `spec_satisfied`: climbing the path from the leaf, with each direction
//! bit constrained boolean, must reproduce the root.

use vstd::prelude::*;

use crate::field::{Fe, fe_of_u64};
use crate::hash::{PoseidonHasher, fe_views};
use crate::tree::{MerklePath, MerkleTree, lemma_climb_push, spec_climb};

verus! {

/// Circuit assignment for proving Merkle tree membership.
pub struct MerkleProofCircuit {
    /// Private: the leaf value being proven.
    pub leaf: Fe,
    /// Private: sibling hashes along the Merkle path.
    pub path: Vec<Fe>,
    /// Private: path direction indicators (true: right child).
    pub path_indices: Vec<bool>,
    /// Public: the Merkle root to verify against.
    pub root: Fe,
}

impl MerkleProofCircuit {
    /// What the circuit's constraints enforce: the path climbs from the
    /// leaf to the root.
    pub open spec fn spec_satisfied(&self) -> bool {
        spec_climb(self.leaf@, fe_views(self.path@), self.path_indices@) == self.root@
    }

    /// An assignment with zero leaf and siblings for the trusted setup;
    /// its root is computed so that the assignment is satisfiable, since
    /// the setup enumerates constraints over a consistent witness.
    pub fn new_empty(depth: usize) -> (r: MerkleProofCircuit)
        ensures
            r.leaf@ == fe_of_u64(0),
            r.path@.len() == depth,
            forall|i: int| 0 <= i < depth ==> (#[trigger] r.path@[i])@ == fe_of_u64(0),
            r.path_indices@.len() == depth,
            forall|i: int| 0 <= i < depth ==> !(#[trigger] r.path_indices@[i]),
            r.spec_satisfied(),
    {
        let hasher = PoseidonHasher::new();
        let leaf = Fe::from_u64(0);
        let mut path: Vec<Fe> = Vec::new();
        let mut path_indices: Vec<bool> = Vec::new();
        let mut current = leaf.dup();
        let mut k: usize = 0;
        proof {
            assert(fe_views(path@) =~= Seq::<Seq<u8>>::empty());
            assert(spec_climb(leaf@, fe_views(path@), path_indices@) == leaf@);
        }
        while k < depth
            invariant
                k <= depth,
                leaf@ == fe_of_u64(0),
                path@.len() == k,
                forall|i: int| 0 <= i < k ==> (#[trigger] path@[i])@ == fe_of_u64(0),
                path_indices@.len() == k,
                forall|i: int| 0 <= i < k ==> !(#[trigger] path_indices@[i]),
                spec_climb(leaf@, fe_views(path@), path_indices@) == current@,
            decreases depth - k,
        {
            let sibling = Fe::from_u64(0);
            proof {
                lemma_climb_push(leaf@, fe_views(path@), path_indices@, sibling@, false);
            }
            let next = hasher.hash_two(&current, &sibling);
            let ghost old_views = fe_views(path@);
            path.push(sibling);
            path_indices.push(false);
            proof {
                assert(fe_views(path@) =~= old_views.push(path@[k as int]@));
            }
            current = next;
            k = k + 1;
        }
        MerkleProofCircuit { leaf, path, path_indices, root: current }
    }

    /// An assignment with actual witness values for proving.
    pub fn new_with_witness(merkle_path: &MerklePath, root: Fe) -> (r: MerkleProofCircuit)
        ensures
            r.leaf@ == merkle_path.leaf@,
            fe_views(r.path@) == fe_views(merkle_path.siblings@),
            r.path@.len() == merkle_path.siblings@.len(),
            r.path_indices@ == merkle_path.indices@,
            r.root@ == root@,
            r.spec_satisfied() <==> merkle_path.spec_root() == root@,
    {
        let mut path: Vec<Fe> = Vec::new();
        let mut i: usize = 0;
        while i < merkle_path.siblings.len()
            invariant
                i <= merkle_path.siblings@.len(),
                path@.len() == i,
                forall|j: int| 0 <= j < i ==> (#[trigger] path@[j])@ == merkle_path.siblings@[j]@,
            decreases merkle_path.siblings@.len() - i,
        {
            path.push(merkle_path.siblings[i].dup());
            i = i + 1;
        }
        let mut path_indices: Vec<bool> = Vec::new();
        let mut j: usize = 0;
        while j < merkle_path.indices.len()
            invariant
                j <= merkle_path.indices@.len(),
                path_indices@ == merkle_path.indices@.subrange(0, j as int),
            decreases merkle_path.indices@.len() - j,
        {
            path_indices.push(merkle_path.indices[j]);
            j = j + 1;
        }
        proof {
            assert(path_indices@ =~= merkle_path.indices@);
            assert(fe_views(path@) =~= fe_views(merkle_path.siblings@));
        }
        MerkleProofCircuit { leaf: merkle_path.leaf.dup(), path, path_indices, root }
    }

    /// An assignment built from a tree and a leaf index; `None` past the
    /// real leaves. The assignment it hands out is always satisfiable.
    pub fn from_tree(tree: &MerkleTree, leaf_index: usize) -> (r: Option<MerkleProofCircuit>)
        ensures
            r is Some <==> leaf_index < tree.spec_num_leaves(),
            r is Some ==> {
                let c = r->Some_0;
                &&& c.spec_satisfied()
                &&& c.root@ == tree.root_view()
                &&& c.path@.len() == tree.spec_depth()
                &&& c.leaf@ == tree.leaf_view(leaf_index as int)
            },
    {
        let path = match tree.get_path(leaf_index) {
            Some(p) => p,
            None => {
                return None;
            },
        };
        let root = tree.root();
        Some(Self::new_with_witness(&path, root))
    }

    /// The depth of this circuit.
    pub fn depth(&self) -> (r: usize)
        ensures
            r == self.path@.len(),
    {
        self.path.len()
    }
}

} // verus!
