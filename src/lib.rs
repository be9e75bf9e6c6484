//! A Merkle tree stored as one flat array of fixed-size hash blocks, with
//! arithmetic addressing between a node, its ancestor and its children.
use vstd::prelude::*;
use vstd::arithmetic::power2::{pow2, lemma2_to64, lemma2_to64_rest, lemma_pow2_pos, lemma_pow2_strictly_increases};

pub mod data;
pub mod error;

use data::{checked_pow2, index_of_depth_offset, DepthOffset, Index};
use error::{IndexError, LeMerkLevelError, LeMerkTreeError};

verus! {

/// The ancestor of position `i`: `i / 2` where that is a different position.
pub open spec fn ancestor_of(i: usize) -> Option<Index> {
    if i / 2 < i {
        Some(Index(i / 2))
    } else {
        None
    }
}

/// The right child `2 * i + 1` of position `i`, where it is within `max_index`.
pub open spec fn right_of(i: usize, max_index: usize) -> Option<Index> {
    if 2 * i + 1 <= max_index {
        Some(Index((2 * i + 1) as usize))
    } else {
        None
    }
}

/// The left child `2 * i` of position `i`, given only where a right child exists.
pub open spec fn left_of(i: usize, max_index: usize) -> Option<Index> {
    if 2 * i + 1 <= max_index {
        Some(Index((2 * i) as usize))
    } else {
        None
    }
}

/// The other child of the ancestor of position `i`: an odd (right) position pairs
/// with the one below it, an even (left) one with the one above it. Position 0
/// has no ancestor and so no pair.
pub open spec fn pair_of(i: usize) -> Option<Index> {
    if i == 0 {
        None
    } else if i % 2 == 1 {
        Some(Index((i - 1) as usize))
    } else {
        Some(Index((i + 1) as usize))
    }
}

/// `usize::MAX` is `2^32 - 1` or `2^64 - 1`.
proof fn lemma_usize_max()
    ensures
        usize::MAX == 0xffff_ffff || usize::MAX == 0xffff_ffff_ffff_ffff,
{
}

/// Where `2^d` slots fit in a `usize`, so does every right child of a slot.
proof fn lemma_children_fit(d: nat)
    requires
        pow2(d) <= usize::MAX,
    ensures
        2 * pow2(d) - 1 <= usize::MAX,
{
    lemma2_to64();
    lemma2_to64_rest();
    lemma_usize_max();
    let w: nat = if usize::MAX == 0xffff_ffff { 32 } else { 64 };
    if w == 32 {
        assert(pow2(32) == usize::MAX + 1 && 2 * pow2(31) == pow2(32));
    } else {
        assert(pow2(64) == usize::MAX + 1 && 2 * pow2(63) == pow2(64));
    }
    if d >= w {
        if d > w {
            lemma_pow2_strictly_increases(w, d);
        }
        assert(false);
    } else if d + 1 < w {
        lemma_pow2_strictly_increases(d, (w - 1) as nat);
    }
}

/// One contiguous buffer of hash blocks, addressed by position.
#[derive(Debug)]
pub struct LeMerkLevel<const CIPHER_BLOCK_SIZE: usize>(pub Vec<[u8; CIPHER_BLOCK_SIZE]>);

impl<const CIPHER_BLOCK_SIZE: usize> View for LeMerkLevel<CIPHER_BLOCK_SIZE> {
    type V = Seq<[u8; CIPHER_BLOCK_SIZE]>;

    open spec fn view(&self) -> Seq<[u8; CIPHER_BLOCK_SIZE]> {
        self.0@
    }
}

impl<const CIPHER_BLOCK_SIZE: usize> LeMerkLevel<CIPHER_BLOCK_SIZE> {
    /// A handle on the block at `value`, through which the caller may overwrite it.
    pub fn get_cipher_block_mut_ref(&mut self, value: Index) -> (r: Result<
        &mut [u8; CIPHER_BLOCK_SIZE],
        LeMerkLevelError,
    >)
        ensures
            match r {
                Ok(b) => {
                    &&& value.0 < old(self)@.len()
                    &&& *b == old(self)@[value.0 as int]
                    &&& final(self)@ == old(self)@.update(value.0 as int, *final(b))
                },
                Err(e) => {
                    &&& value.0 >= old(self)@.len()
                    &&& e == LeMerkLevelError::Overflow
                    &&& *final(self) == *old(self)
                },
            },
    {
        let index_usize = value.get_index();
        if index_usize < self.0.len() {
            Ok(&mut self.0[index_usize])
        } else {
            Err(LeMerkLevelError::Overflow)
        }
    }

    /// A copy of the block at `value`.
    pub fn get_cipher_block(&self, value: Index) -> (r: Result<
        [u8; CIPHER_BLOCK_SIZE],
        LeMerkLevelError,
    >)
        ensures
            value.0 < self@.len() ==> r == Ok::<_, LeMerkLevelError>(self@[value.0 as int]),
            value.0 >= self@.len() ==> r == Err::<[u8; CIPHER_BLOCK_SIZE], _>(LeMerkLevelError::Overflow),
    {
        let index_usize = value.get_index();
        if index_usize < self.0.len() {
            Ok(self.0[index_usize])
        } else {
            Err(LeMerkLevelError::Overflow)
        }
    }

    /// The level that holds `vector`, in its order.
    pub fn from(vector: Vec<[u8; CIPHER_BLOCK_SIZE]>) -> (r: LeMerkLevel<CIPHER_BLOCK_SIZE>)
        ensures
            r@ == vector@,
    {
        LeMerkLevel::<CIPHER_BLOCK_SIZE>(vector)
    }
}

/// The ancestor, left child and right child of `index` in a tree whose last
/// position is `max_index`, each derived with checked arithmetic.
fn node_links(index: Index, max_index: Index) -> (r: Result<
    (Option<Index>, Option<Index>, Option<Index>),
    LeMerkTreeError,
>)
    ensures
        2 * index.0 > usize::MAX ==> r == Err::<(Option<Index>, Option<Index>, Option<Index>), _>(
            LeMerkTreeError::BadMultiplication,
        ),
        2 * index.0 <= usize::MAX < 2 * index.0 + 1 ==> r == Err::<
            (Option<Index>, Option<Index>, Option<Index>),
            _,
        >(LeMerkTreeError::BadAddition),
        2 * index.0 + 1 <= usize::MAX ==> r == Ok::<_, LeMerkTreeError>(
            (
                ancestor_of(index.0),
                left_of(index.0, max_index.0),
                right_of(index.0, max_index.0),
            ),
        ),
{
    let i = index.get_index();
    let be_ancestor = match i.checked_div(2) {
        Some(a) => a,
        None => {
            return Err(LeMerkTreeError::BadDivision);
        },
    };
    let ancestor: Option<Index> = if be_ancestor < i {
        Some(Index::from(be_ancestor))
    } else {
        None
    };
    let be_left = match i.checked_mul(2) {
        Some(l) => l,
        None => {
            return Err(LeMerkTreeError::BadMultiplication);
        },
    };
    let be_right = match be_left.checked_add(1) {
        Some(r) => r,
        None => {
            return Err(LeMerkTreeError::BadAddition);
        },
    };
    let right: Option<Index> = if be_right <= max_index.get_index() {
        Some(Index::from(be_right))
    } else {
        None
    };
    // A node with no right child is given no left child either.
    let left: Option<Index> = if right.is_some() {
        Some(Index::from(be_left))
    } else {
        None
    };
    Ok((ancestor, left, right))
}

/// The recomputed ancestor of `index`.
fn ancestor_index(index: Index) -> (r: Result<Option<Index>, IndexError>)
    ensures
        r == Ok::<_, IndexError>(ancestor_of(index.0)),
{
    let i = index.get_index();
    let be_ancestor = match i.checked_div(2) {
        Some(a) => a,
        None => {
            return Err(IndexError::IndexBadDivision);
        },
    };
    let ancestor: Option<Index> = if be_ancestor < i {
        Some(Index::from(be_ancestor))
    } else {
        None
    };
    Ok(ancestor)
}

/// A borrowed view of one tree position: a handle on its stored hash, its own
/// position, and the positions of its ancestor and children as derived at lookup.
pub struct VirtualNode<'a, const CIPHER_BLOCK_SIZE: usize> {
    pub data_hash: &'a mut [u8; CIPHER_BLOCK_SIZE],
    pub index: Index,
    pub ancestor: Option<Index>,
    pub left: Option<Index>,
    pub right: Option<Index>,
}

/// A read-only view of one tree position, holding a copy of its stored hash.
#[derive(Clone, Copy, Debug)]
pub struct VirtualNodeCopy<const CIPHER_BLOCK_SIZE: usize> {
    pub data_hash: [u8; CIPHER_BLOCK_SIZE],
    pub index: Index,
    pub ancestor: Option<Index>,
    pub left: Option<Index>,
    pub right: Option<Index>,
}

impl<'a, const CIPHER_BLOCK_SIZE: usize> VirtualNode<'a, CIPHER_BLOCK_SIZE> {
    /// The node sits at `index` of a tree whose last position is `max_index`,
    /// and its neighbours are the ones the addressing rules give there.
    pub open spec fn has_links(&self, index: Index, max_index: Index) -> bool {
        &&& self.index == index
        &&& self.ancestor == ancestor_of(index.0)
        &&& self.left == left_of(index.0, max_index.0)
        &&& self.right == right_of(index.0, max_index.0)
    }

    /// The node's own position.
    pub fn get_index(&self) -> (r: Index)
        ensures
            r == self.index,
    {
        self.index
    }

    /// The left child, as derived at lookup.
    pub fn get_left(&self) -> (r: Option<Index>)
        ensures
            r == self.left,
    {
        self.left
    }

    /// The right child, as derived at lookup.
    pub fn get_right(&self) -> (r: Option<Index>)
        ensures
            r == self.right,
    {
        self.right
    }

    /// The ancestor, recomputed from the node's own position rather than read
    /// from the value cached at lookup.
    pub fn get_ancestor(&self) -> (r: Result<Option<Index>, IndexError>)
        ensures
            r == Ok::<_, IndexError>(ancestor_of(self.index.0)),
    {
        ancestor_index(self.index)
    }

    /// The sibling that shares this node's ancestor: the position below an odd
    /// position, the one above an even position, and none for position 0.
    pub fn get_pair_to_ancestor(&self) -> (r: Option<Index>)
        ensures
            r == pair_of(self.index.0),
    {
        let i = self.index.get_index();
        if i == 0 {
            None
        } else if i % 2 == 1 {
            Some(Index::from(i - 1))
        } else {
            proof {
                lemma_usize_max();
            }
            Some(Index::from(i + 1))
        }
    }
}

impl<const CIPHER_BLOCK_SIZE: usize> VirtualNodeCopy<CIPHER_BLOCK_SIZE> {
    /// The node sits at `index` of a tree whose last position is `max_index`,
    /// and its neighbours are the ones the addressing rules give there.
    pub open spec fn has_links(&self, index: Index, max_index: Index) -> bool {
        &&& self.index == index
        &&& self.ancestor == ancestor_of(index.0)
        &&& self.left == left_of(index.0, max_index.0)
        &&& self.right == right_of(index.0, max_index.0)
    }
}

/// A Merkle tree of `depth_length` levels, every node of every level held in one
/// flat level in binary-heap order, so that its last position is
/// `2^depth_length - 1`.
#[derive(Debug)]
pub struct LeMerkTree<const CIPHER_BLOCK_SIZE: usize> {
    /// Number of levels of the tree.
    pub depth_length: usize,
    /// The last valid position.
    pub max_index: Index,
    /// Every node's hash, in flat order.
    pub flat_hash_tree: LeMerkLevel<CIPHER_BLOCK_SIZE>,
}

impl<const CIPHER_BLOCK_SIZE: usize> LeMerkTree<CIPHER_BLOCK_SIZE> {
    /// The flat level has one slot per position `0..=max_index`, and that is
    /// `2^depth_length` slots.
    pub open spec fn wf(&self) -> bool {
        &&& self.flat_hash_tree@.len() == pow2(self.depth_length as nat)
        &&& self.max_index.0 + 1 == pow2(self.depth_length as nat)
    }

    /// The hash stored at position `i`.
    pub open spec fn hash_at(&self, i: Index) -> [u8; CIPHER_BLOCK_SIZE] {
        self.flat_hash_tree@[i.0 as int]
    }

    /// The tree of `depth_length` levels whose flat level is `blocks`, which must
    /// hold exactly `2^depth_length` blocks.
    pub fn from_flat(depth_length: usize, blocks: Vec<[u8; CIPHER_BLOCK_SIZE]>) -> (r: Result<
        LeMerkTree<CIPHER_BLOCK_SIZE>,
        LeMerkTreeError,
    >)
        ensures
            match r {
                Ok(t) => {
                    &&& blocks@.len() == pow2(depth_length as nat)
                    &&& t.wf()
                    &&& t.depth_length == depth_length
                    &&& t.flat_hash_tree@ == blocks@
                },
                Err(e) => blocks@.len() != pow2(depth_length as nat) && e == LeMerkTreeError::BadShape,
            },
    {
        let count = blocks.len();
        let slots = match checked_pow2(depth_length) {
            Some(p) => p,
            None => {
                return Err(LeMerkTreeError::BadShape);
            },
        };
        if count != slots {
            return Err(LeMerkTreeError::BadShape);
        }
        proof {
            lemma_pow2_pos(depth_length as nat);
        }
        Ok(
            LeMerkTree {
                depth_length,
                max_index: Index::from(slots - 1),
                flat_hash_tree: LeMerkLevel::from(blocks),
            },
        )
    }

    /// The node at the coordinate `value`, with a handle on its hash.
    pub fn get_node_by_depth_offset(&mut self, value: DepthOffset) -> (r: Result<
        VirtualNode<'_, CIPHER_BLOCK_SIZE>,
        LeMerkTreeError,
    >)
        requires
            old(self).wf(),
        ensures
            match r {
                Ok(n) => {
                    &&& index_of_depth_offset(value) matches Ok(i)
                    &&& i.0 <= old(self).max_index.0
                    &&& n.has_links(i, old(self).max_index)
                    &&& *n.data_hash == old(self).hash_at(i)
                    &&& final(self).flat_hash_tree@ == old(self).flat_hash_tree@.update(
                        i.0 as int,
                        *final(n.data_hash),
                    )
                    &&& final(self).depth_length == old(self).depth_length
                    &&& final(self).max_index == old(self).max_index
                },
                Err(e) => {
                    &&& *final(self) == *old(self)
                    &&& match index_of_depth_offset(value) {
                        Err(ie) => e == LeMerkTreeError::BadIndex(ie),
                        Ok(i) => i.0 > old(self).max_index.0 && e == LeMerkTreeError::Overflow,
                    }
                },
            },
    {
        let index = match Index::try_from(value) {
            Ok(i) => i,
            Err(e) => {
                return Err(LeMerkTreeError::from(e));
            },
        };
        self.get_node_by_index(index)
    }

    /// The node at position `index`, with a handle on its hash through which the
    /// caller may overwrite it.
    pub fn get_node_by_index(&mut self, index: Index) -> (r: Result<
        VirtualNode<'_, CIPHER_BLOCK_SIZE>,
        LeMerkTreeError,
    >)
        requires
            old(self).wf(),
        ensures
            match r {
                Ok(n) => {
                    &&& index.0 <= old(self).max_index.0
                    &&& n.has_links(index, old(self).max_index)
                    &&& *n.data_hash == old(self).hash_at(index)
                    &&& final(self).flat_hash_tree@ == old(self).flat_hash_tree@.update(
                        index.0 as int,
                        *final(n.data_hash),
                    )
                    &&& final(self).depth_length == old(self).depth_length
                    &&& final(self).max_index == old(self).max_index
                },
                Err(e) => {
                    &&& index.0 > old(self).max_index.0
                    &&& e == LeMerkTreeError::Overflow
                    &&& *final(self) == *old(self)
                },
            },
    {
        if index.get_index() > self.max_index.get_index() {
            return Err(LeMerkTreeError::Overflow);
        }
        // The flat level's length is a usize, so every right child position is one too.
        let _slot_count = self.flat_hash_tree.0.len();
        proof {
            lemma_children_fit(self.depth_length as nat);
        }
        let (ancestor, left, right) = match node_links(index, self.max_index) {
            Ok(links) => links,
            Err(e) => {
                return Err(e);
            },
        };
        let data_hash = match self.flat_hash_tree.get_cipher_block_mut_ref(index) {
            Ok(b) => b,
            Err(e) => {
                return Err(LeMerkTreeError::from(e));
            },
        };
        Ok(VirtualNode { data_hash, index, ancestor, left, right })
    }

    /// The node at position `index`, with a copy of its hash.
    pub fn get_node_copy_by_index(&self, index: Index) -> (r: Result<
        VirtualNodeCopy<CIPHER_BLOCK_SIZE>,
        LeMerkTreeError,
    >)
        requires
            self.wf(),
        ensures
            match r {
                Ok(n) => {
                    &&& index.0 <= self.max_index.0
                    &&& n.has_links(index, self.max_index)
                    &&& n.data_hash == self.hash_at(index)
                },
                Err(e) => index.0 > self.max_index.0 && e == LeMerkTreeError::Overflow,
            },
    {
        if index.get_index() > self.max_index.get_index() {
            return Err(LeMerkTreeError::Overflow);
        }
        // The flat level's length is a usize, so every right child position is one too.
        let _slot_count = self.flat_hash_tree.0.len();
        proof {
            lemma_children_fit(self.depth_length as nat);
        }
        let (ancestor, left, right) = match node_links(index, self.max_index) {
            Ok(links) => links,
            Err(e) => {
                return Err(e);
            },
        };
        let data_hash = match self.flat_hash_tree.get_cipher_block(index) {
            Ok(b) => b,
            Err(e) => {
                return Err(LeMerkTreeError::from(e));
            },
        };
        Ok(VirtualNodeCopy { data_hash, index, ancestor, left, right })
    }
}

/// A hash written at position `i` through the handle of a mutable lookup is what
/// a later read-only lookup at `i` gives, and every other position keeps its hash.
pub proof fn lemma_write_then_read<const CIPHER_BLOCK_SIZE: usize>(
    before: LeMerkTree<CIPHER_BLOCK_SIZE>,
    after: LeMerkTree<CIPHER_BLOCK_SIZE>,
    i: Index,
    written: [u8; CIPHER_BLOCK_SIZE],
    j: Index,
)
    requires
        before.wf(),
        i.0 <= before.max_index.0,
        j.0 <= before.max_index.0,
        after.flat_hash_tree@ == before.flat_hash_tree@.update(i.0 as int, written),
        after.depth_length == before.depth_length,
        after.max_index == before.max_index,
    ensures
        after.wf(),
        after.hash_at(i) == written,
        j != i ==> after.hash_at(j) == before.hash_at(j),
{
}

} // verus!
