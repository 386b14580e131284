//! Binary Merkle tree over BN254 field elements, hashed with Poseidon.
//!
//! The tree is padded to the next power of two with the zero element and
//! stored as a flat level-order array: the root at index 0, the children
//! of node `i` at `2i + 1` and `2i + 2`. Every path handed out by
//! `get_path` recomputes the tree's root, which is proved here.

use vstd::prelude::*;

use vstd::arithmetic::power2::{
    lemma2_to64, lemma_pow2_adds, lemma_pow2_pos, lemma_pow2_strictly_increases, pow2,
};
use vstd::bytes::{
    lemma_auto_spec_u32_to_from_le_bytes, lemma_auto_spec_u64_to_from_le_bytes,
    spec_u32_from_le_bytes, spec_u32_to_le_bytes, spec_u64_from_le_bytes, spec_u64_to_le_bytes,
    u32_from_le_bytes, u32_to_le_bytes, u64_from_le_bytes, u64_to_le_bytes,
};
use vstd::slice::{slice_subrange, slice_to_vec};

use crate::field::{Fe, fe_canon, fe_of_u64};
use crate::hash::{PoseidonHasher, fe_views, poseidon2};

verus! {

/// Maximum tree depth.
pub const MAX_DEPTH: usize = 30;

/// A Merkle path (proof) for membership verification.
pub struct MerklePath {
    /// Sibling hashes along the path from leaf to root.
    pub siblings: Vec<Fe>,
    /// Path indices: false = left child, true = right child.
    pub indices: Vec<bool>,
    /// The leaf value being proven.
    pub leaf: Fe,
}

/// The root recomputed by climbing from a leaf: at each level the current
/// node is hashed with its sibling, the sibling on the left exactly when
/// the index bit says the current node is the right child. The climb stops
/// when either list runs out.
pub open spec fn spec_climb(cur: Seq<u8>, siblings: Seq<Seq<u8>>, indices: Seq<bool>) -> Seq<u8>
    decreases siblings.len(),
{
    if siblings.len() == 0 || indices.len() == 0 {
        cur
    } else {
        let next = if indices[0] {
            poseidon2(siblings[0], cur)
        } else {
            poseidon2(cur, siblings[0])
        };
        spec_climb(next, siblings.drop_first(), indices.drop_first())
    }
}

/// Climbing one more level hashes the climbed value with the new sibling.
pub proof fn lemma_climb_push(
    cur: Seq<u8>,
    siblings: Seq<Seq<u8>>,
    indices: Seq<bool>,
    sib: Seq<u8>,
    bit: bool,
)
    requires
        siblings.len() == indices.len(),
    ensures
        spec_climb(cur, siblings.push(sib), indices.push(bit)) == (if bit {
            poseidon2(sib, spec_climb(cur, siblings, indices))
        } else {
            poseidon2(spec_climb(cur, siblings, indices), sib)
        }),
    decreases siblings.len(),
{
    let s1 = siblings.push(sib);
    let i1 = indices.push(bit);
    if siblings.len() == 0 {
        let next = if bit {
            poseidon2(sib, cur)
        } else {
            poseidon2(cur, sib)
        };
        assert(s1[0] == sib && i1[0] == bit);
        assert(spec_climb(cur, s1, i1) == spec_climb(next, s1.drop_first(), i1.drop_first()));
        assert(s1.drop_first().len() == 0);
        assert(spec_climb(next, s1.drop_first(), i1.drop_first()) == next);
        assert(spec_climb(cur, siblings, indices) == cur);
    } else {
        let next = if indices[0] {
            poseidon2(siblings[0], cur)
        } else {
            poseidon2(cur, siblings[0])
        };
        assert(s1[0] == siblings[0] && i1[0] == indices[0]);
        assert(spec_climb(cur, s1, i1) == spec_climb(next, s1.drop_first(), i1.drop_first()));
        assert(s1.drop_first() =~= siblings.drop_first().push(sib));
        assert(i1.drop_first() =~= indices.drop_first().push(bit));
        lemma_climb_push(next, siblings.drop_first(), indices.drop_first(), sib, bit);
    }
}

/// Level-order index of the k-th ancestor of the leaf at `leaf_index` in
/// a tree of the given depth; k = 0 is the leaf's own node.
pub open spec fn spec_ancestor(depth: nat, leaf_index: int, k: int) -> int
    decreases k,
        when k >= 0
{
    if k <= 0 {
        pow2(depth) - 1 + leaf_index
    } else {
        (spec_ancestor(depth, leaf_index, k - 1) - 1) / 2
    }
}

/// Level-order index of a node's sibling.
pub open spec fn spec_sibling(n: int) -> int {
    if n % 2 == 0 {
        n - 1
    } else {
        n + 1
    }
}

/// The parent of node `ni > 0` in the flat layout: `ni` is one of its two
/// children.
proof fn lemma_parent_index(ni: int)
    requires
        ni >= 1,
    ensures
        ni == 2 * ((ni - 1) / 2) + 1 + ((ni - 1) % 2),
        ni % 2 == 0 ==> ni == 2 * ((ni - 1) / 2) + 2,
        ni % 2 == 1 ==> ni == 2 * ((ni - 1) / 2) + 1,
{
}

impl MerklePath {
    /// The root this path climbs to.
    pub open spec fn spec_root(&self) -> Seq<u8> {
        spec_climb(self.leaf@, fe_views(self.siblings@), self.indices@)
    }

    /// Compute the root from this path.
    pub fn compute_root(&self, hasher: &PoseidonHasher) -> (r: Fe)
        ensures
            r@ == self.spec_root(),
    {
        let n: usize = if self.siblings.len() <= self.indices.len() {
            self.siblings.len()
        } else {
            self.indices.len()
        };
        let mut current = self.leaf.dup();
        let mut k: usize = 0;
        proof {
            assert(fe_views(self.siblings@).skip(0) =~= fe_views(self.siblings@));
            assert(self.indices@.skip(0) =~= self.indices@);
        }
        while k < n
            invariant
                k <= n,
                n <= self.siblings@.len(),
                n <= self.indices@.len(),
                spec_climb(
                    current@,
                    fe_views(self.siblings@).skip(k as int),
                    self.indices@.skip(k as int),
                ) == self.spec_root(),
            decreases n - k,
        {
            let next = if self.indices[k] {
                hasher.hash_two(&self.siblings[k], &current)
            } else {
                hasher.hash_two(&current, &self.siblings[k])
            };
            proof {
                assert(fe_views(self.siblings@).skip(k as int).drop_first() =~= fe_views(
                    self.siblings@,
                ).skip(k + 1));
                assert(self.indices@.skip(k as int).drop_first() =~= self.indices@.skip(k + 1));
                assert(fe_views(self.siblings@).skip(k as int)[0] == self.siblings@[k as int]@);
            }
            current = next;
            k = k + 1;
        }
        proof {
            assert(fe_views(self.siblings@).skip(n as int).len() == 0 || self.indices@.skip(
                n as int,
            ).len() == 0);
        }
        current
    }

    /// Verify this path against a given root.
    pub fn verify(&self, root: &Fe, hasher: &PoseidonHasher) -> (r: bool)
        ensures
            r == (self.spec_root() == root@),
    {
        let computed = self.compute_root(hasher);
        computed.eq_fe(root)
    }

    /// The depth of this path.
    pub fn depth(&self) -> (r: usize)
        ensures
            r == self.siblings@.len(),
    {
        self.siblings.len()
    }
}

/// Concatenation of node encodings.
pub open spec fn nodes_bytes(nodes: Seq<Seq<u8>>) -> Seq<u8>
    decreases nodes.len(),
{
    if nodes.len() == 0 {
        Seq::empty()
    } else {
        nodes[0] + nodes_bytes(nodes.drop_first())
    }
}

/// Every node encoding is 32 bytes long.
pub open spec fn all_nodes_len32(nodes: Seq<Seq<u8>>) -> bool {
    forall|i: int| 0 <= i < nodes.len() ==> (#[trigger] nodes[i]).len() == 32
}

/// Appending one node appends its bytes.
pub proof fn lemma_nodes_bytes_push(nodes: Seq<Seq<u8>>, x: Seq<u8>)
    ensures
        nodes_bytes(nodes.push(x)) == nodes_bytes(nodes) + x,
    decreases nodes.len(),
{
    let s1 = nodes.push(x);
    if nodes.len() == 0 {
        assert(s1.drop_first() =~= Seq::<Seq<u8>>::empty());
        assert(nodes_bytes(s1) == s1[0] + nodes_bytes(s1.drop_first()));
        assert(nodes_bytes(nodes) + x =~= x);
        assert(s1[0] + Seq::<u8>::empty() =~= x);
    } else {
        assert(s1.drop_first() =~= nodes.drop_first().push(x));
        lemma_nodes_bytes_push(nodes.drop_first(), x);
        assert(nodes_bytes(s1) == s1[0] + (nodes_bytes(nodes.drop_first()) + x));
        assert(s1[0] == nodes[0]);
        assert(nodes[0] + (nodes_bytes(nodes.drop_first()) + x) =~= (nodes[0] + nodes_bytes(
            nodes.drop_first(),
        )) + x);
    }
}

/// With 32-byte nodes the concatenation has 32 bytes per node.
pub proof fn lemma_nodes_bytes_len(nodes: Seq<Seq<u8>>)
    requires
        all_nodes_len32(nodes),
    ensures
        nodes_bytes(nodes).len() == 32 * nodes.len(),
    decreases nodes.len(),
{
    if nodes.len() > 0 {
        assert(all_nodes_len32(nodes.drop_first())) by {
            assert(forall|i: int|
                0 <= i < nodes.drop_first().len() ==> #[trigger] nodes.drop_first()[i] == nodes[
                    i + 1
                ]);
        }
        lemma_nodes_bytes_len(nodes.drop_first());
    }
}

/// With 32-byte nodes, node `i` sits at offset `32 i` of the
/// concatenation.
pub proof fn lemma_nodes_bytes_index(nodes: Seq<Seq<u8>>, i: int)
    requires
        all_nodes_len32(nodes),
        0 <= i < nodes.len(),
    ensures
        nodes_bytes(nodes).subrange(32 * i, 32 * i + 32) == nodes[i],
    decreases i,
{
    lemma_nodes_bytes_len(nodes);
    assert(all_nodes_len32(nodes.drop_first())) by {
        assert(forall|j: int|
            0 <= j < nodes.drop_first().len() ==> #[trigger] nodes.drop_first()[j] == nodes[j
                + 1]);
    }
    lemma_nodes_bytes_len(nodes.drop_first());
    if i == 0 {
        assert(nodes_bytes(nodes).subrange(0, 32) =~= nodes[0]);
    } else {
        lemma_nodes_bytes_index(nodes.drop_first(), i - 1);
        assert(nodes_bytes(nodes).subrange(32 * i, 32 * i + 32) =~= nodes_bytes(
            nodes.drop_first(),
        ).subrange(32 * (i - 1), 32 * (i - 1) + 32));
        assert(nodes.drop_first()[i - 1] == nodes[i]);
    }
}

/// The serialized form of tree data: depth, leaf count, node encodings.
pub open spec fn spec_tree_bytes(depth: u32, count: u64, nodes: Seq<Seq<u8>>) -> Seq<u8> {
    spec_u32_to_le_bytes(depth) + spec_u64_to_le_bytes(count) + nodes_bytes(nodes)
}

/// Node `i` of a view sequence holds the hash of its two children.
pub open spec fn hash_ok_views(nodes: Seq<Seq<u8>>, i: int) -> bool {
    nodes[i] == poseidon2(nodes[2 * i + 1], nodes[2 * i + 2])
}

/// Well-formed tree data: bounded depth, leaf count within the padded
/// width, a full complement of canonical 32-byte nodes, the hash relation
/// at every internal node, and zero padding leaves.
pub open spec fn spec_tree_wf_data(depth: u32, count: u64, nodes: Seq<Seq<u8>>) -> bool {
    &&& depth <= 30
    &&& count <= pow2(depth as nat)
    &&& nodes.len() == 2 * pow2(depth as nat) - 1
    &&& forall|i: int|
        0 <= i < nodes.len() ==> (#[trigger] nodes[i]).len() == 32 && fe_canon(nodes[i])
    &&& forall|i: int| 0 <= i < pow2(depth as nat) - 1 ==> #[trigger] hash_ok_views(nodes, i)
    &&& forall|p: int|
        pow2(depth as nat) - 1 + count <= p < nodes.len() ==> (#[trigger] nodes[p]) == fe_of_u64(
            0,
        )
}

/// The depth stored in a serialized tree.
pub open spec fn parse_depth(b: Seq<u8>) -> u32 {
    spec_u32_from_le_bytes(b.subrange(0, 4))
}

/// The leaf count stored in a serialized tree.
pub open spec fn parse_count(b: Seq<u8>) -> u64 {
    spec_u64_from_le_bytes(b.subrange(4, 12))
}

/// The node count a serialized tree's depth calls for.
pub open spec fn parse_total(b: Seq<u8>) -> int {
    2 * pow2(parse_depth(b) as nat) - 1
}

/// The encoding of node `i` stored in a serialized tree.
pub open spec fn parse_node(b: Seq<u8>, i: int) -> Seq<u8> {
    b.subrange(12 + 32 * i, 12 + 32 * i + 32)
}

/// All node encodings stored in a serialized tree.
pub open spec fn parse_nodes(b: Seq<u8>) -> Seq<Seq<u8>> {
    Seq::new(parse_total(b) as nat, |i: int| parse_node(b, i))
}

/// The bytes that `MerkleTree::from_bytes` accepts: exactly the
/// serializations of well-formed tree data.
pub open spec fn spec_tree_bytes_valid(b: Seq<u8>) -> bool {
    &&& b.len() >= 12
    &&& b.len() == 12 + 32 * parse_total(b)
    &&& spec_tree_wf_data(parse_depth(b), parse_count(b), parse_nodes(b))
}

/// Round trip of the tree codec: serializing well-formed tree data gives
/// bytes that deserialize, and parsing recovers the data unchanged.
pub proof fn lemma_tree_encode_parses(depth: u32, count: u64, nodes: Seq<Seq<u8>>)
    requires
        spec_tree_wf_data(depth, count, nodes),
    ensures
        spec_tree_bytes_valid(spec_tree_bytes(depth, count, nodes)),
        parse_depth(spec_tree_bytes(depth, count, nodes)) == depth,
        parse_count(spec_tree_bytes(depth, count, nodes)) == count,
        parse_nodes(spec_tree_bytes(depth, count, nodes)) == nodes,
{
    let b = spec_tree_bytes(depth, count, nodes);
    lemma_auto_spec_u32_to_from_le_bytes();
    lemma_auto_spec_u64_to_from_le_bytes();
    lemma_nodes_bytes_len(nodes);
    assert(b.subrange(0, 4) =~= spec_u32_to_le_bytes(depth));
    assert(b.subrange(4, 12) =~= spec_u64_to_le_bytes(count));
    assert(parse_depth(b) == depth);
    assert(parse_count(b) == count);
    assert forall|i: int| 0 <= i < nodes.len() implies parse_node(b, i) == nodes[i] by {
        lemma_nodes_bytes_index(nodes, i);
        assert(parse_node(b, i) =~= nodes_bytes(nodes).subrange(32 * i, 32 * i + 32));
    }
    assert(parse_nodes(b) =~= nodes);
}

/// Errors of Merkle tree construction and persistence.
#[derive(Debug)]
pub enum TreeError {
    /// A file could not be read or written.
    IoError(String),
    /// The bytes do not encode a well-formed tree.
    DeserializationError(String),
    /// More leaves than the maximum depth admits.
    TooManyLeaves,
}

/// Binary Merkle tree with Poseidon hashing.
pub struct MerkleTree {
    /// All nodes in level order; the root at index 0.
    nodes: Vec<Fe>,
    /// Number of levels below the root.
    depth: usize,
    /// Number of real (non-padding) leaves.
    num_leaves: usize,
    /// Hasher instance.
    hasher: PoseidonHasher,
}

/// Two to the power of a small exponent.
pub fn pow2_usize(k: usize) -> (r: usize)
    requires
        k <= 30,
    ensures
        r == pow2(k as nat),
{
    proof {
        lemma2_to64();
    }
    let mut r: usize = 1;
    let mut i: usize = 0;
    while i < k
        invariant
            i <= k <= 30,
            r == pow2(i as nat),
        decreases k - i,
    {
        proof {
            lemma_pow2_adds(i as nat, 1);
            lemma2_to64();
            if i + 1 < 31 {
                lemma_pow2_strictly_increases((i + 1) as nat, 31);
            }
            assert(pow2(31) == 0x80000000) by {
                lemma_pow2_adds(30, 1);
                lemma2_to64();
            }
        }
        r = r * 2;
        i = i + 1;
    }
    r
}

/// Node `i` holds the hash of its two children.
spec fn hash_ok_at(nodes: Seq<Fe>, i: int) -> bool {
    nodes[i]@ == poseidon2(nodes[2 * i + 1]@, nodes[2 * i + 2]@)
}

impl MerkleTree {
    #[verifier::type_invariant]
    closed spec fn wf(self) -> bool {
        &&& self.depth <= 30
        &&& self.num_leaves <= pow2(self.depth as nat)
        &&& self.nodes@.len() == 2 * pow2(self.depth as nat) - 1
        &&& forall|i: int|
            0 <= i < pow2(self.depth as nat) - 1 ==> #[trigger] hash_ok_at(self.nodes@, i)
        &&& forall|p: int|
            pow2(self.depth as nat) - 1 + self.num_leaves <= p < 2 * pow2(self.depth as nat) - 1
                ==> (#[trigger] self.nodes@[p])@ == fe_of_u64(0)
    }

    /// The tree's depth.
    pub closed spec fn spec_depth(&self) -> nat {
        self.depth as nat
    }

    /// The number of real leaves.
    pub closed spec fn spec_num_leaves(&self) -> nat {
        self.num_leaves as nat
    }

    /// The encodings of all nodes, in level order.
    pub closed spec fn node_views(&self) -> Seq<Seq<u8>> {
        fe_views(self.nodes@)
    }

    /// The encoding of the root.
    pub open spec fn root_view(&self) -> Seq<u8> {
        self.node_views()[0]
    }

    /// The encoding of the leaf at an index.
    pub open spec fn leaf_view(&self, i: int) -> Seq<u8> {
        self.node_views()[pow2(self.spec_depth()) - 1 + i]
    }

    /// Whether some real leaf has the given encoding.
    pub open spec fn has_leaf(&self, v: Seq<u8>) -> bool {
        exists|j: int| 0 <= j < self.spec_num_leaves() && self.leaf_view(j) == v
    }

    /// Build a new Merkle tree from a list of leaves, padded to the next
    /// power of two with zero leaves. The leaf count must fit the maximum
    /// depth; `try_new` rejects over-large lists instead.
    pub fn new(leaves: Vec<Fe>) -> (r: MerkleTree)
        requires
            leaves@.len() <= 0x4000_0000,
        ensures
            r.spec_num_leaves() == leaves@.len(),
            forall|i: int| 0 <= i < leaves@.len() ==> r.leaf_view(i) == leaves@[i]@,
            r.spec_depth() <= 30,
            leaves@.len() <= pow2(r.spec_depth()),
            leaves@.len() == 0 ==> r.spec_depth() == 0 && r.root_view() == fe_of_u64(0),
            leaves@.len() >= 1 ==> 1 <= r.spec_depth(),
            r.spec_depth() > 1 ==> pow2((r.spec_depth() - 1) as nat) < leaves@.len(),
    {
        let hasher = PoseidonHasher::new();
        Self::with_hasher(leaves, hasher)
    }

    /// Build a tree, rejecting a leaf list that would exceed the maximum
    /// depth instead of demanding the bound of the caller.
    pub fn try_new(leaves: Vec<Fe>) -> (r: Result<MerkleTree, TreeError>)
        ensures
            r is Ok <==> leaves@.len() <= 0x4000_0000,
            r is Err ==> r->Err_0 is TooManyLeaves,
            r is Ok ==> {
                let t = r->Ok_0;
                &&& t.spec_num_leaves() == leaves@.len()
                &&& forall|i: int| 0 <= i < leaves@.len() ==> t.leaf_view(i) == leaves@[i]@
                &&& t.spec_depth() <= 30
                &&& leaves@.len() <= pow2(t.spec_depth())
                &&& (leaves@.len() == 0 ==> t.spec_depth() == 0 && t.root_view() == fe_of_u64(0))
                &&& (leaves@.len() >= 1 ==> 1 <= t.spec_depth())
                &&& (t.spec_depth() > 1 ==> pow2((t.spec_depth() - 1) as nat) < leaves@.len())
            },
    {
        if leaves.len() > 0x4000_0000 {
            return Err(TreeError::TooManyLeaves);
        }
        Ok(Self::new(leaves))
    }

    /// Build a tree with a specific hasher instance. The leaf count must
    /// fit the maximum depth; `try_new` rejects over-large lists instead.
    pub fn with_hasher(leaves: Vec<Fe>, hasher: PoseidonHasher) -> (r: MerkleTree)
        requires
            leaves@.len() <= 0x4000_0000,
        ensures
            r.spec_num_leaves() == leaves@.len(),
            forall|i: int| 0 <= i < leaves@.len() ==> r.leaf_view(i) == leaves@[i]@,
            r.spec_depth() <= 30,
            leaves@.len() <= pow2(r.spec_depth()),
            leaves@.len() == 0 ==> r.spec_depth() == 0 && r.root_view() == fe_of_u64(0),
            leaves@.len() >= 1 ==> 1 <= r.spec_depth(),
            r.spec_depth() > 1 ==> pow2((r.spec_depth() - 1) as nat) < leaves@.len(),
    {
        if leaves.len() == 0 {
            return Self::empty_tree(hasher);
        }
        let num_leaves = leaves.len();
        let depth = Self::compute_depth(num_leaves);
        let padded = pow2_usize(depth);
        proof {
            lemma2_to64();
            if depth < 30 {
                lemma_pow2_strictly_increases(depth as nat, 30);
            }
        }
        assert(padded <= 0x4000_0000);
        let leaf_start = padded - 1;
        let total = 2 * padded - 1;
        let zero = Fe::from_u64(0);

        let mut nodes: Vec<Fe> = Vec::new();
        // Placeholders for the internal nodes.
        while nodes.len() < leaf_start
            invariant
                nodes@.len() <= leaf_start,
            decreases leaf_start - nodes@.len(),
        {
            nodes.push(zero.dup());
        }
        // The real leaves.
        let mut i: usize = 0;
        while i < num_leaves
            invariant
                i <= num_leaves,
                num_leaves == leaves@.len(),
                nodes@.len() == leaf_start + i,
                forall|j: int|
                    0 <= j < i ==> (#[trigger] nodes@[leaf_start + j])@ == leaves@[j]@,
            decreases num_leaves - i,
        {
            nodes.push(leaves[i].dup());
            i = i + 1;
        }
        // Zero padding.
        while nodes.len() < total
            invariant
                num_leaves == leaves@.len(),
                zero@ == fe_of_u64(0),
                leaf_start + num_leaves <= nodes@.len() <= total,
                forall|j: int|
                    0 <= j < num_leaves ==> (#[trigger] nodes@[leaf_start + j])@ == leaves@[j]@,
                forall|p: int|
                    leaf_start + num_leaves <= p < nodes@.len() ==> (#[trigger] nodes@[p])@
                        == fe_of_u64(0),
            decreases total - nodes@.len(),
        {
            nodes.push(zero.dup());
        }
        // Internal nodes, bottom-up.
        let mut k: usize = leaf_start;
        while k > 0
            invariant
                k <= leaf_start,
                leaf_start <= 0x3FFF_FFFF,
                total == 2 * (leaf_start + 1) - 1,
                nodes@.len() == total,
                num_leaves == leaves@.len(),
                num_leaves <= leaf_start + 1,
                forall|j: int|
                    0 <= j < num_leaves ==> (#[trigger] nodes@[leaf_start + j])@ == leaves@[j]@,
                forall|p: int|
                    leaf_start + num_leaves <= p < total ==> (#[trigger] nodes@[p])@ == fe_of_u64(
                        0,
                    ),
                forall|j: int| k <= j < leaf_start ==> #[trigger] hash_ok_at(nodes@, j),
            decreases k,
        {
            k = k - 1;
            let h = hasher.hash_two(&nodes[2 * k + 1], &nodes[2 * k + 2]);
            let ghost prev = nodes@;
            nodes[k] = h;
            proof {
                assert forall|j: int| k <= j < leaf_start implies #[trigger] hash_ok_at(
                    nodes@,
                    j,
                ) by {
                    if j == k {
                        assert(nodes@[j]@ == h@);
                        assert(nodes@[2 * j + 1] == prev[2 * j + 1]);
                        assert(nodes@[2 * j + 2] == prev[2 * j + 2]);
                    } else {
                        assert(hash_ok_at(prev, j));
                        assert(nodes@[j] == prev[j]);
                        assert(nodes@[2 * j + 1] == prev[2 * j + 1]);
                        assert(nodes@[2 * j + 2] == prev[2 * j + 2]);
                    }
                }
            }
        }
        proof {
            lemma_pow2_pos(depth as nat);
        }
        MerkleTree { nodes, depth, num_leaves, hasher }
    }

    /// Create an empty tree: a single zero node of depth 0.
    fn empty_tree(hasher: PoseidonHasher) -> (r: MerkleTree)
        ensures
            r.spec_num_leaves() == 0,
            r.spec_depth() == 0,
            r.root_view() == fe_of_u64(0),
    {
        let mut nodes: Vec<Fe> = Vec::new();
        nodes.push(Fe::from_u64(0));
        proof {
            lemma2_to64();
        }
        MerkleTree { nodes, depth: 0, num_leaves: 0, hasher }
    }

    /// The minimum depth for the given number of leaves: at least 1, and
    /// just large enough that all leaves fit.
    fn compute_depth(n: usize) -> (r: usize)
        requires
            n <= 0x4000_0000,
        ensures
            1 <= r <= 30,
            n <= pow2(r as nat),
            r > 1 ==> pow2((r - 1) as nat) < n,
    {
        proof {
            lemma2_to64();
        }
        if n <= 1 {
            return 1;
        }
        let mut r: usize = 1;
        let mut p: usize = 2;
        while p < n
            invariant
                1 <= r <= 30,
                p == pow2(r as nat),
                n <= 0x4000_0000,
                2 <= n,
                r > 1 ==> pow2((r - 1) as nat) < n,
            decreases 30 - r,
        {
            proof {
                lemma_pow2_adds(r as nat, 1);
                lemma2_to64();
                if r >= 30 {
                    lemma_pow2_strictly_increases(30, r as nat + 1);
                    assert(pow2(30) == 0x40000000);
                    assert(false);
                }
            }
            p = p * 2;
            r = r + 1;
        }
        r
    }

    /// Get the Merkle root.
    pub fn root(&self) -> (r: Fe)
        ensures
            r@ == self.root_view(),
    {
        proof {
            use_type_invariant(self);
            lemma_pow2_pos(self.depth as nat);
        }
        self.nodes[0].dup()
    }

    /// Get tree depth.
    pub fn depth(&self) -> (r: usize)
        ensures
            r == self.spec_depth(),
    {
        self.depth
    }

    /// Get the number of real (non-padding) leaves.
    pub fn num_leaves(&self) -> (r: usize)
        ensures
            r == self.spec_num_leaves(),
    {
        self.num_leaves
    }

    /// Get a reference to the hasher.
    pub fn hasher(&self) -> &PoseidonHasher {
        &self.hasher
    }

    /// Find the real leaf equal to the given value; of several equal
    /// leaves, the last one, as a lookup map filled in index order would
    /// report it. Padding slots are never reported.
    pub fn find_leaf(&self, leaf: &Fe) -> (r: Option<usize>)
        ensures
            r is Some ==> r->Some_0 < self.spec_num_leaves() && self.leaf_view(
                r->Some_0 as int,
            ) == leaf@,
            r is Some ==> forall|j: int|
                r->Some_0 < j < self.spec_num_leaves() ==> self.leaf_view(j) != leaf@,
            r is None ==> !self.has_leaf(leaf@),
    {
        proof {
            use_type_invariant(self);
            lemma2_to64();
            if self.depth < 30 {
                lemma_pow2_strictly_increases(self.depth as nat, 30);
            }
        }
        let leaf_start = pow2_usize(self.depth) - 1;
        let mut i: usize = self.num_leaves;
        while i > 0
            invariant
                i <= self.num_leaves,
                self.wf(),
                leaf_start == pow2(self.depth as nat) - 1,
                leaf_start <= 0x3FFF_FFFF,
                forall|j: int| i <= j < self.spec_num_leaves() ==> self.leaf_view(j) != leaf@,
            decreases i,
        {
            i = i - 1;
            if self.nodes[leaf_start + i].eq_fe(leaf) {
                return Some(i);
            }
        }
        None
    }

    /// Check if a leaf exists in the tree.
    pub fn contains(&self, leaf: &Fe) -> (r: bool)
        ensures
            r ==> self.has_leaf(leaf@),
            !r ==> !self.has_leaf(leaf@),
    {
        match self.find_leaf(leaf) {
            Some(_) => true,
            None => false,
        }
    }

    /// Generate a Merkle path for the leaf at the given index, or `None`
    /// past the real leaves. The path it hands out always climbs back to
    /// this tree's root.
    #[verifier::rlimit(100)]
    pub fn get_path(&self, leaf_index: usize) -> (r: Option<MerklePath>)
        ensures
            r is Some <==> leaf_index < self.spec_num_leaves(),
            r is Some ==> {
                let p = r->Some_0;
                &&& p.siblings@.len() == self.spec_depth()
                &&& p.indices@.len() == self.spec_depth()
                &&& p.leaf@ == self.leaf_view(leaf_index as int)
                &&& p.spec_root() == self.root_view()
                &&& forall|k: int|
                    0 <= k < self.spec_depth() ==> #[trigger] p.indices@[k] == (spec_ancestor(
                        self.spec_depth(),
                        leaf_index as int,
                        k,
                    ) % 2 == 0)
                &&& forall|k: int|
                    0 <= k < self.spec_depth() ==> (#[trigger] p.siblings@[k])@
                        == self.node_views()[spec_sibling(
                        spec_ancestor(self.spec_depth(), leaf_index as int, k),
                    )]
            },
    {
        proof {
            use_type_invariant(self);
            lemma2_to64();
            if self.depth < 30 {
                lemma_pow2_strictly_increases(self.depth as nat, 30);
            }
        }
        if leaf_index >= self.num_leaves {
            return None;
        }
        let padded = pow2_usize(self.depth);
        assert(padded <= 0x4000_0000);
        let leaf_start = padded - 1;
        let mut node_index = leaf_start + leaf_index;
        let leaf = self.nodes[node_index].dup();
        let mut siblings: Vec<Fe> = Vec::new();
        let mut indices: Vec<bool> = Vec::new();
        let ghost mut lvl: int = self.depth as int;

        while node_index > 0
            invariant
                self.wf(),
                0 <= lvl <= self.depth,
                pow2(lvl as nat) - 1 <= node_index < 2 * pow2(lvl as nat) - 1,
                siblings@.len() == self.depth - lvl,
                indices@.len() == self.depth - lvl,
                node_index == spec_ancestor(
                    self.spec_depth(),
                    leaf_index as int,
                    self.depth - lvl,
                ),
                forall|k: int|
                    0 <= k < self.depth - lvl ==> #[trigger] indices@[k] == (spec_ancestor(
                        self.spec_depth(),
                        leaf_index as int,
                        k,
                    ) % 2 == 0),
                forall|k: int|
                    0 <= k < self.depth - lvl ==> (#[trigger] siblings@[k])@
                        == self.node_views()[spec_sibling(
                        spec_ancestor(self.spec_depth(), leaf_index as int, k),
                    )],
                spec_climb(leaf@, fe_views(siblings@), indices@) == self.nodes@[node_index as int]@,
            decreases node_index,
        {
            proof {
                if lvl == 0 {
                    lemma2_to64();
                    assert(false);
                }
                lemma_pow2_adds((lvl - 1) as nat, 1);
                lemma2_to64();
                if lvl < self.depth {
                    lemma_pow2_strictly_increases(lvl as nat, self.depth as nat);
                }
            }
            let is_right = node_index % 2 == 0;
            let sibling_index = if is_right {
                node_index - 1
            } else {
                node_index + 1
            };
            let parent = (node_index - 1) / 2;
            proof {
                let ghost q = pow2((lvl - 1) as nat) as int;
                lemma_parent_index(node_index as int);
                assert(node_index == 2 * parent + 1 || node_index == 2 * parent + 2);
                assert(q - 1 <= parent < 2 * q - 1);
                assert(hash_ok_at(self.nodes@, parent as int));
                lemma_climb_push(
                    leaf@,
                    fe_views(siblings@),
                    indices@,
                    self.nodes@[sibling_index as int]@,
                    is_right,
                );
            }
            let ghost old_sibs = fe_views(siblings@);
            siblings.push(self.nodes[sibling_index].dup());
            indices.push(is_right);
            proof {
                assert(fe_views(siblings@) =~= old_sibs.push(
                    self.nodes@[sibling_index as int]@,
                ));
                let c = self.depth - lvl;
                assert(sibling_index == spec_sibling(node_index as int));
                assert(self.node_views()[sibling_index as int] == self.nodes@[
                    sibling_index as int
                ]@);
                assert(spec_ancestor(self.spec_depth(), leaf_index as int, c + 1) == (
                spec_ancestor(self.spec_depth(), leaf_index as int, c) - 1) / 2);
                lvl = lvl - 1;
            }
            node_index = parent;
        }
        proof {
            if lvl > 0 {
                lemma_pow2_strictly_increases(0, lvl as nat);
                lemma2_to64();
                assert(false);
            }
        }
        Some(MerklePath { siblings, indices, leaf })
    }

    /// Serialize this tree: a 4-byte little-endian depth, an 8-byte
    /// little-endian leaf count, then every node's 32-byte encoding in
    /// level order.
    pub fn to_bytes(&self) -> (r: Vec<u8>)
        ensures
            r@ == spec_tree_bytes(
                self.spec_depth() as u32,
                self.spec_num_leaves() as u64,
                self.node_views(),
            ),
            spec_tree_wf_data(
                self.spec_depth() as u32,
                self.spec_num_leaves() as u64,
                self.node_views(),
            ),
            self.spec_depth() <= 30,
            self.spec_num_leaves() <= pow2(self.spec_depth()),
    {
        proof {
            use_type_invariant(self);
        }
        let mut r = u32_to_le_bytes(self.depth as u32);
        let mut count_bytes = u64_to_le_bytes(self.num_leaves as u64);
        r.append(&mut count_bytes);
        let ghost header = r@;
        let n = self.nodes.len();
        let mut i: usize = 0;
        proof {
            assert(self.node_views().take(0) =~= Seq::<Seq<u8>>::empty());
        }
        while i < n
            invariant
                i <= n,
                n == self.nodes@.len(),
                self.wf(),
                header == spec_u32_to_le_bytes(self.depth as u32) + spec_u64_to_le_bytes(
                    self.num_leaves as u64,
                ),
                r@ == header + nodes_bytes(self.node_views().take(i as int)),
                forall|j: int|
                    0 <= j < i ==> (#[trigger] self.node_views()[j]).len() == 32 && fe_canon(
                        self.node_views()[j],
                    ),
            decreases n - i,
        {
            let fe = &self.nodes[i];
            proof {
                use_type_invariant(fe);
                lemma_nodes_bytes_push(
                    self.node_views().take(i as int),
                    self.node_views()[i as int],
                );
                assert(self.node_views().take(i + 1) =~= self.node_views().take(i as int).push(
                    self.node_views()[i as int],
                ));
            }
            let mut b = fe.to_bytes();
            r.append(&mut b);
            i = i + 1;
        }
        proof {
            assert(self.node_views().take(n as int) =~= self.node_views());
            lemma2_to64();
            if self.depth < 30 {
                lemma_pow2_strictly_increases(self.depth as nat, 30);
            }
            assert forall|j: int|
                0 <= j < pow2(self.spec_depth()) - 1 implies #[trigger] hash_ok_views(
                self.node_views(),
                j,
            ) by {
                assert(hash_ok_at(self.nodes@, j));
            }
        }
        r
    }

    /// Deserialize a tree. Succeeds exactly on the bytes that encode a
    /// well-formed tree: structure, canonical node encodings, the hash
    /// relation of every internal node, and zero padding are all checked.
    pub fn from_bytes(bytes: &[u8]) -> (r: Result<MerkleTree, TreeError>)
        ensures
            r is Ok <==> spec_tree_bytes_valid(bytes@),
            r is Err ==> r->Err_0 is DeserializationError,
            r is Ok ==> {
                let t = r->Ok_0;
                &&& t.spec_depth() == parse_depth(bytes@)
                &&& t.spec_num_leaves() == parse_count(bytes@)
                &&& t.node_views() == parse_nodes(bytes@)
            },
    {
        if bytes.len() < 12 {
            return Err(TreeError::DeserializationError("truncated header".to_owned()));
        }
        let depth32 = u32_from_le_bytes(slice_subrange(bytes, 0, 4));
        if depth32 > 30 {
            return Err(TreeError::DeserializationError("depth too large".to_owned()));
        }
        let depth = depth32 as usize;
        let count64 = u64_from_le_bytes(slice_subrange(bytes, 4, 12));
        let padded = pow2_usize(depth);
        proof {
            lemma2_to64();
            if depth < 30 {
                lemma_pow2_strictly_increases(depth as nat, 30);
            }
        }
        if count64 > padded as u64 {
            return Err(TreeError::DeserializationError("leaf count too large".to_owned()));
        }
        let num_leaves = count64 as usize;
        let total = 2 * padded - 1;
        let body_len = bytes.len() - 12;
        if body_len % 32 != 0 || body_len / 32 != total {
            return Err(TreeError::DeserializationError("node data length mismatch".to_owned()));
        }
        assert(bytes@.len() == 12 + 32 * total);
        let blen = bytes.len();
        assert(12 + 32 * total <= usize::MAX);

        let mut nodes: Vec<Fe> = Vec::new();
        let mut i: usize = 0;
        while i < total
            invariant
                i <= total,
                total == parse_total(bytes@),
                depth == parse_depth(bytes@),
                bytes@.len() == 12 + 32 * total,
                12 + 32 * total <= usize::MAX,
                nodes@.len() == i,
                forall|j: int|
                    0 <= j < i ==> (#[trigger] nodes@[j])@ == parse_node(bytes@, j),
                forall|j: int|
                    0 <= j < i ==> (#[trigger] parse_node(bytes@, j)).len() == 32 && fe_canon(
                        parse_node(bytes@, j),
                    ),
            decreases total - i,
        {
            let chunk = slice_to_vec(slice_subrange(bytes, 12 + 32 * i, 12 + 32 * i + 32));
            proof {
                assert(chunk@ =~= parse_node(bytes@, i as int));
            }
            match Fe::from_bytes(chunk) {
                Some(fe) => {
                    nodes.push(fe);
                },
                None => {
                    proof {
                        assert(parse_nodes(bytes@)[i as int] == parse_node(bytes@, i as int));
                        assert(!fe_canon(parse_node(bytes@, i as int)));
                    }
                    return Err(
                        TreeError::DeserializationError("non-canonical node encoding".to_owned()),
                    );
                },
            }
            i = i + 1;
        }

        let hasher = PoseidonHasher::new();
        let leaf_start = padded - 1;
        let mut k: usize = 0;
        while k < leaf_start
            invariant
                k <= leaf_start,
                leaf_start == padded - 1,
                padded == pow2(depth as nat),
                padded <= 0x4000_0000,
                total == 2 * padded - 1,
                total == parse_total(bytes@),
                depth == parse_depth(bytes@),
                nodes@.len() == total,
                forall|j: int|
                    0 <= j < total ==> (#[trigger] nodes@[j])@ == parse_node(bytes@, j),
                forall|j: int| 0 <= j < k ==> #[trigger] hash_ok_at(nodes@, j),
            decreases leaf_start - k,
        {
            let h = hasher.hash_two(&nodes[2 * k + 1], &nodes[2 * k + 2]);
            if !h.eq_fe(&nodes[k]) {
                proof {
                    assert(!hash_ok_at(nodes@, k as int));
                    assert(!hash_ok_views(parse_nodes(bytes@), k as int));
                }
                return Err(TreeError::DeserializationError("node hash mismatch".to_owned()));
            }
            k = k + 1;
        }

        let zero = Fe::from_u64(0);
        let mut p: usize = leaf_start + num_leaves;
        while p < total
            invariant
                leaf_start + num_leaves <= p <= total,
                leaf_start == padded - 1,
                padded == pow2(depth as nat),
                padded <= 0x4000_0000,
                num_leaves <= padded,
                total == 2 * padded - 1,
                total == parse_total(bytes@),
                depth == parse_depth(bytes@),
                num_leaves == parse_count(bytes@),
                zero@ == fe_of_u64(0),
                nodes@.len() == total,
                forall|j: int|
                    0 <= j < total ==> (#[trigger] nodes@[j])@ == parse_node(bytes@, j),
                forall|j: int|
                    leaf_start + num_leaves <= j < p ==> (#[trigger] nodes@[j])@ == fe_of_u64(0),
            decreases total - p,
        {
            if !nodes[p].eq_fe(&zero) {
                proof {
                    assert(parse_nodes(bytes@)[p as int] == parse_node(bytes@, p as int));
                    assert(parse_nodes(bytes@)[p as int] != fe_of_u64(0));
                }
                return Err(TreeError::DeserializationError("non-zero padding leaf".to_owned()));
            }
            p = p + 1;
        }

        proof {
            lemma_pow2_pos(depth as nat);
            assert(parse_nodes(bytes@) =~= fe_views(nodes@));
            assert forall|j: int| 0 <= j < padded - 1 implies #[trigger] hash_ok_views(
                parse_nodes(bytes@),
                j,
            ) by {
                assert(hash_ok_at(nodes@, j));
            }
            assert(spec_tree_wf_data(parse_depth(bytes@), parse_count(bytes@), parse_nodes(
                bytes@,
            )));
            assert(spec_tree_bytes_valid(bytes@));
        }
        Ok(MerkleTree { nodes, depth, num_leaves, hasher })
    }

    /// Generate a Merkle path for a specific leaf value.
    pub fn get_path_for_leaf(&self, leaf: &Fe) -> (r: Option<MerklePath>)
        ensures
            r is Some ==> self.has_leaf(leaf@),
            r is Some ==> {
                let p = r->Some_0;
                &&& p.leaf@ == leaf@
                &&& p.siblings@.len() == self.spec_depth()
                &&& p.spec_root() == self.root_view()
            },
            r is None ==> !self.has_leaf(leaf@),
    {
        let index = match self.find_leaf(leaf) {
            Some(i) => i,
            None => {
                return None;
            },
        };
        self.get_path(index)
    }
}

} // verus!
