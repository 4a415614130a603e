//! A single item of a flexbox.

use vstd::prelude::*;
use crate::geometry::XY;

verus! {

/// A single item in a flexbox: the size that its content asks for, and its
/// share in the space that a line has left.
#[derive(Debug, Clone, Copy, PartialEq, Eq, Hash, Structural)]
pub struct FlexItem {
    /// The size that the content of this item requires.
    pub required_size: XY,
    /// A relative amount of the free space on the main axis that should be
    /// given to this item. It is relative to the amounts that the other items
    /// on the same line ask for. Zero asks for nothing.
    pub flex_grow: u8,
}

impl FlexItem {
    /// Create a flex item that does not grow.
    pub fn new(required_size: XY) -> (item: Self)
        ensures
            item == (FlexItem { required_size, flex_grow: 0 }),
    {
        FlexItem { required_size, flex_grow: 0 }
    }

    /// Create a flex item with the given grow factor.
    pub fn with_flex_grow(required_size: XY, flex_grow: u8) -> (item: Self)
        ensures
            item == (FlexItem { required_size, flex_grow }),
    {
        FlexItem { required_size, flex_grow }
    }

    /// Set the flex-grow.
    pub fn set_flex_grow(&mut self, flex_grow: u8)
        ensures
            *final(self) == (FlexItem { required_size: old(self).required_size, flex_grow }),
    {
        self.flex_grow = flex_grow;
    }

    /// Returns the flex-grow.
    pub fn flex_grow(&self) -> (g: u8)
        ensures
            g == self.flex_grow,
    {
        self.flex_grow
    }

    /// Set the size that the content requires.
    pub fn set_required_size(&mut self, required_size: XY)
        ensures
            *final(self) == (FlexItem { required_size, flex_grow: old(self).flex_grow }),
    {
        self.required_size = required_size;
    }

    /// Returns the size that the content requires.
    pub fn required_size(&self) -> (s: XY)
        ensures
            s == self.required_size,
    {
        self.required_size
    }
}

} // verus!
