use vstd::prelude::*;

verus! {

/// A violated shape or domain constraint of one of the transforms.
#[derive(Clone, Copy, Debug, PartialEq, Eq, Structural)]
pub enum ShapeError {
    /// The price matrix has no rows.
    NoRows,
    /// Rows of the price matrix (or asset series) differ in length.
    RaggedRows,
    /// The window size is zero.
    WindowTooSmall,
    /// The window size leaves no decision point with a following period.
    WindowTooLarge,
    /// The batch size is zero.
    BatchTooSmall,
    /// The local price matrices and the change rates differ in count.
    CountMismatch,
    /// Fewer windows than one batch holds.
    TooFewWindows,
}

} // verus!
