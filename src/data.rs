use vstd::prelude::*;
use vstd::arithmetic::power2::{pow2, lemma2_to64, lemma_pow2_unfold, lemma_pow2_pos, lemma_pow2_strictly_increases};
use crate::error::IndexError;

verus! {

/// A position in the flattened array that holds every node of a tree.
///
/// The layout is the binary-heap one: the node at depth `d` and offset `o`
/// sits at `2^d + o`, the ancestor of position `i` is `i / 2`, and its
/// children are `2 * i` and `2 * i + 1`.
#[derive(Clone, Copy, Debug, PartialEq, Eq, Structural)]
pub struct Index(pub usize);

/// A node coordinate as a level (0 is the root) and an offset within that level.
#[derive(Clone, Copy, Debug, PartialEq, Eq, Structural)]
pub struct DepthOffset {
    pub depth: usize,
    pub offset: usize,
}

/// Where the coordinate `d` lands in the flat layout, or why it lands nowhere.
pub open spec fn index_of_depth_offset(d: DepthOffset) -> Result<Index, IndexError> {
    if d.offset >= pow2(d.depth as nat) {
        Err(IndexError::IndexBadOffset)
    } else if pow2(d.depth as nat) + d.offset > usize::MAX {
        Err(IndexError::IndexOverflow)
    } else {
        Ok(Index((pow2(d.depth as nat) + d.offset) as usize))
    }
}

/// Number of halvings that take position `i` down to the root position 1.
pub open spec fn depth_of(i: nat) -> nat
    decreases i,
{
    if i <= 1 {
        0
    } else {
        1 + depth_of(i / 2)
    }
}

/// The coordinate of position `i`, which exists for every position but 0.
pub open spec fn depth_offset_of_index(i: Index) -> Result<DepthOffset, IndexError> {
    if i.0 == 0 {
        Err(IndexError::IndexNoDepthOffset)
    } else {
        Ok(DepthOffset { depth: depth_of(i.0 as nat) as usize, offset: (i.0 - pow2(depth_of(i.0 as nat))) as usize })
    }
}

/// A position `i >= 1` lies in the level `[2^d, 2^(d+1))` of its depth `d`.
pub proof fn lemma_depth_of_bounds(i: nat)
    requires
        i >= 1,
    ensures
        pow2(depth_of(i)) <= i < pow2(depth_of(i) + 1),
        depth_of(i) < i,
    decreases i,
{
    lemma_pow2_unfold(depth_of(i) + 1);
    if i > 1 {
        lemma_depth_of_bounds(i / 2);
        lemma_pow2_unfold(depth_of(i));
        lemma_pow2_unfold(depth_of(i / 2) + 1);
    } else {
        lemma2_to64();
    }
}

/// A position in the level `[2^d, 2^(d+1))` has depth `d`.
pub proof fn lemma_depth_of_unique(i: nat, d: nat)
    requires
        pow2(d) <= i < pow2(d + 1),
    ensures
        depth_of(i) == d,
    decreases d,
{
    lemma_pow2_unfold(d + 1);
    if d == 0 {
        lemma2_to64();
    } else {
        lemma_pow2_unfold(d);
        lemma_depth_of_unique(i / 2, (d - 1) as nat);
    }
}

/// `2^d` when it fits in a `usize`.
pub fn checked_pow2(d: usize) -> (r: Option<usize>)
    ensures
        pow2(d as nat) <= usize::MAX ==> r == Some(pow2(d as nat) as usize),
        pow2(d as nat) > usize::MAX ==> r is None,
{
    let mut p: usize = 1;
    let mut k: usize = 0;
    proof {
        lemma2_to64();
    }
    while k < d
        invariant
            k <= d,
            p == pow2(k as nat),
        decreases d - k,
    {
        proof {
            lemma_pow2_unfold((k + 1) as nat);
        }
        match p.checked_mul(2) {
            Some(q) => {
                p = q;
            },
            None => {
                proof {
                    if k + 1 < d {
                        lemma_pow2_strictly_increases((k + 1) as nat, d as nat);
                    }
                }
                return None;
            },
        }
        k = k + 1;
    }
    Some(p)
}

impl Index {
    /// The position `value`.
    pub fn from(value: usize) -> (r: Index)
        ensures
            r.0 == value,
    {
        Index(value)
    }

    /// The position as an integer.
    pub fn get_index(&self) -> (r: usize)
        ensures
            r == self.0,
    {
        self.0
    }
}

impl TryFrom<DepthOffset> for Index {
    type Error = IndexError;

    fn try_from(value: DepthOffset) -> (r: Result<Index, IndexError>)
        ensures
            r == index_of_depth_offset(value),
    {
        let p = match checked_pow2(value.depth) {
            Some(p) => p,
            None => {
                return Err(IndexError::IndexOverflow);
            },
        };
        if value.offset >= p {
            return Err(IndexError::IndexBadOffset);
        }
        match p.checked_add(value.offset) {
            Some(x) => Ok(Index(x)),
            None => Err(IndexError::IndexOverflow),
        }
    }
}

impl vstd::std_specs::convert::TryFromSpecImpl<DepthOffset> for Index {
    open spec fn obeys_try_from_spec() -> bool {
        true
    }

    open spec fn try_from_spec(value: DepthOffset) -> Result<Index, IndexError> {
        index_of_depth_offset(value)
    }
}

impl TryFrom<Index> for DepthOffset {
    type Error = IndexError;

    /// Finds the depth by halving the position down to the root, counting the steps.
    fn try_from(value: Index) -> (r: Result<DepthOffset, IndexError>)
        ensures
            r == depth_offset_of_index(value),
    {
        if value.0 == 0 {
            return Err(IndexError::IndexNoDepthOffset);
        }
        proof {
            lemma_depth_of_bounds(value.0 as nat);
        }
        let mut v: usize = value.0;
        let mut d: usize = 0;
        while v > 1
            invariant
                1 <= v,
                depth_of(value.0 as nat) == d + depth_of(v as nat),
                depth_of(value.0 as nat) < value.0,
            decreases v,
        {
            v = v / 2;
            d = d + 1;
        }
        let p = match checked_pow2(d) {
            Some(p) => p,
            None => {
                return Err(IndexError::IndexOverflow);
            },
        };
        Ok(DepthOffset { depth: d, offset: value.0 - p })
    }
}

impl vstd::std_specs::convert::TryFromSpecImpl<Index> for DepthOffset {
    open spec fn obeys_try_from_spec() -> bool {
        true
    }

    open spec fn try_from_spec(value: Index) -> Result<DepthOffset, IndexError> {
        depth_offset_of_index(value)
    }
}

/// Every position other than 0 has a coordinate, and converting that coordinate
/// back gives the same position.
pub proof fn lemma_index_round_trip(i: Index)
    requires
        i.0 >= 1,
    ensures
        depth_offset_of_index(i) is Ok,
        index_of_depth_offset(depth_offset_of_index(i)->Ok_0) == Ok::<Index, IndexError>(i),
{
    lemma_depth_of_bounds(i.0 as nat);
    lemma_pow2_unfold(depth_of(i.0 as nat) + 1);
}

/// A coordinate that lands in the flat layout is given back by the position it lands on.
pub proof fn lemma_depth_offset_round_trip(d: DepthOffset)
    requires
        index_of_depth_offset(d) is Ok,
    ensures
        depth_offset_of_index(index_of_depth_offset(d)->Ok_0) == Ok::<DepthOffset, IndexError>(d),
{
    lemma_pow2_pos(d.depth as nat);
    lemma_pow2_unfold(d.depth as nat + 1);
    lemma_depth_of_unique((pow2(d.depth as nat) + d.offset) as nat, d.depth as nat);
}

} // verus!
