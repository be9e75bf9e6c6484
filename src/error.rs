use vstd::prelude::*;

verus! {

/// Failure of a coordinate conversion or of arithmetic on a coordinate.
#[derive(Clone, Copy, Debug, PartialEq, Eq, Structural)]
pub enum IndexError {
    /// The flat position does not fit in a `usize`.
    IndexOverflow,
    /// The offset is not below `2^depth`, so the pair names no node of its level.
    IndexBadOffset,
    /// A checked division on a position failed.
    IndexBadDivision,
    /// Position 0 sits above the root and has no depth/offset coordinate.
    IndexNoDepthOffset,
}

/// Failure of an access into a level buffer.
#[derive(Clone, Copy, Debug, PartialEq, Eq, Structural)]
pub enum LeMerkLevelError {
    /// The index is not below the buffer's length.
    Overflow,
}

/// Failure of a tree operation.
#[derive(Clone, Copy, Debug, PartialEq, Eq, Structural)]
pub enum LeMerkTreeError {
    /// The requested position lies beyond the tree's last index.
    Overflow,
    /// A checked division while deriving a neighbour failed.
    BadDivision,
    /// A checked multiplication while deriving a child failed.
    BadMultiplication,
    /// A checked addition while deriving a right child failed.
    BadAddition,
    /// The blocks handed to the tree do not fill `2^depth_length` slots.
    BadShape,
    /// A depth/offset coordinate could not be converted into a position.
    BadIndex(IndexError),
}

impl From<IndexError> for LeMerkTreeError {
    fn from(e: IndexError) -> (r: LeMerkTreeError)
        ensures
            r == LeMerkTreeError::BadIndex(e),
    {
        LeMerkTreeError::BadIndex(e)
    }
}

impl vstd::std_specs::convert::FromSpecImpl<IndexError> for LeMerkTreeError {
    open spec fn obeys_from_spec() -> bool {
        true
    }

    open spec fn from_spec(e: IndexError) -> LeMerkTreeError {
        LeMerkTreeError::BadIndex(e)
    }
}

impl From<LeMerkLevelError> for LeMerkTreeError {
    fn from(e: LeMerkLevelError) -> (r: LeMerkTreeError)
        ensures
            r == LeMerkTreeError::Overflow,
    {
        match e {
            LeMerkLevelError::Overflow => LeMerkTreeError::Overflow,
        }
    }
}

impl vstd::std_specs::convert::FromSpecImpl<LeMerkLevelError> for LeMerkTreeError {
    open spec fn obeys_from_spec() -> bool {
        true
    }

    open spec fn from_spec(e: LeMerkLevelError) -> LeMerkTreeError {
        LeMerkTreeError::Overflow
    }
}

} // verus!
