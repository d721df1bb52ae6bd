use vstd::prelude::*;

verus! {

/// Why an operation on a fixed string was refused.
#[derive(Debug, Clone, Copy, PartialEq, Eq, Structural)]
pub enum FixedStringError {
    /// A one-shot assignment was made to a string that already holds content.
    AlreadyAssigned,
    /// The requested content does not fit in the remaining capacity.
    Overflow,
    /// An index lies at or beyond the capacity.
    InvalidIndex,
    /// A formatted construction did not fit in the capacity.
    FormatError,
}

} // verus!
