use vstd::prelude::*;

verus! {

/// Failures that the segment reports to its callers.
#[derive(Clone, Copy, Debug, PartialEq, Eq, Structural)]
pub enum ShmError {
    /// The validation marker differs from the reserved constant.
    CorruptSegment,
    /// Every slot is taken and the symbol has none yet.
    SegmentFull,
    /// The slot kept changing, or stayed mid-write, for the whole retry budget.
    TransientUnavailable,
    /// No slot has been assigned to the symbol.
    UnknownSymbol,
}

} // verus!
