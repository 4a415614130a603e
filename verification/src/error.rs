//! What can go wrong.

use vstd::prelude::*;

verus! {

/// Any error that can arise from operations on a flexbox.
#[derive(Debug, Clone, Copy, PartialEq, Eq, Hash, Structural)]
pub enum FlexboxError {
    /// Error when trying to add too many items to one axis.
    AxisFull,
    /// Error when an index does not name a place among the items.
    OutOfRange,
}

impl FlexboxError {
    /// What the error says.
    pub open spec fn message(self) -> Seq<char> {
        match self {
            FlexboxError::AxisFull => "the main axis is full"@,
            FlexboxError::OutOfRange => "the index is out of range"@,
        }
    }

    /// What the error says.
    pub fn to_string(&self) -> (s: String)
        ensures
            s@ == self.message(),
    {
        match self {
            FlexboxError::AxisFull => "the main axis is full".to_owned(),
            FlexboxError::OutOfRange => "the index is out of range".to_owned(),
        }
    }
}

} // verus!
