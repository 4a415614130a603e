//! Points, sizes and rectangles on the character grid.

use vstd::prelude::*;

verus! {

/// A value for each axis, in cells: a point or a size.
#[derive(Debug, Clone, Copy, PartialEq, Eq, Hash, Structural)]
pub struct XY {
    /// X-axis value.
    pub x: usize,
    /// Y-axis value.
    pub y: usize,
}

/// The place of an element: where it starts and how large it is. Either
/// length may be zero.
#[derive(Debug, Clone, Copy, PartialEq, Eq, Hash, Structural)]
pub struct Rect {
    /// Top-left corner.
    pub top_left: XY,
    /// Width and height.
    pub size: XY,
}

impl XY {
    /// Creates a new `XY` from the given values.
    pub fn new(x: usize, y: usize) -> (v: XY)
        ensures
            v == (XY { x, y }),
    {
        XY { x, y }
    }
}

impl Rect {
    /// The column of the last cell of the window that shows this rectangle.
    /// A window is at least one cell wide.
    pub open spec fn right_edge(self) -> int {
        if self.size.x == 0 {
            self.top_left.x as int
        } else {
            self.top_left.x + self.size.x - 1
        }
    }

    /// The row of the last cell of the window that shows this rectangle. A
    /// window is at least one cell high.
    pub open spec fn bottom_edge(self) -> int {
        if self.size.y == 0 {
            self.top_left.y as int
        } else {
            self.top_left.y + self.size.y - 1
        }
    }

    /// The cell past the last cell of the window can still be numbered.
    pub open spec fn bounded(self) -> bool {
        self.right_edge() < usize::MAX && self.bottom_edge() < usize::MAX
    }

    /// Whether the cell `point` lies in the window that shows this rectangle.
    pub open spec fn window_holds(self, point: XY) -> bool {
        &&& self.top_left.x <= point.x <= self.right_edge()
        &&& self.top_left.y <= point.y <= self.bottom_edge()
    }

    /// Creates a new `Rect` with the given position and exactly the given
    /// size.
    pub fn new(top_left: XY, size: XY) -> (r: Rect)
        ensures
            r == (Rect { top_left, size }),
    {
        Rect { top_left, size }
    }

    /// Moves this rectangle by the given offset. Its size stays.
    pub fn shift(&mut self, by: XY)
        requires
            old(self).top_left.x + by.x <= usize::MAX,
            old(self).top_left.y + by.y <= usize::MAX,
        ensures
            final(self).size == old(self).size,
            final(self).top_left.x == old(self).top_left.x + by.x,
            final(self).top_left.y == old(self).top_left.y + by.y,
    {
        self.top_left = XY { x: self.top_left.x + by.x, y: self.top_left.y + by.y };
    }
}

/// The last cell of the window that `cursive_core::Rect::from_size` makes of
/// the position and the size of `rect`, read off with `Rect::right` and
/// `Rect::bottom`.
///
/// Not proved, but taken from cursive: `from_size` takes one off each length,
/// stopping at zero, and adds what remains to the top-left corner to get the
/// bottom-right corner, which `right` and `bottom` hand out. The sum must not
/// overflow.
#[verifier::external_body]
pub(crate) fn window_corner(rect: Rect) -> (corner: XY)
    requires
        rect.bounded(),
    ensures
        corner.x == rect.right_edge(),
        corner.y == rect.bottom_edge(),
{
    let window = cursive_core::Rect::from_size(
        (rect.top_left.x, rect.top_left.y),
        (rect.size.x, rect.size.y),
    );
    XY { x: window.right(), y: window.bottom() }
}

/// What `cursive_core::Rect::contains` answers for the rectangle that
/// `cursive_core::Rect::from_corners` makes of a top-left and a bottom-right
/// corner.
///
/// Not proved, but taken from cursive: `from_corners` keeps two corners that
/// are given in this order, and `contains` holds of a point that lies, on
/// each axis, between the two corners, both included.
#[verifier::external_body]
pub(crate) fn corners_contain(top_left: XY, bottom_right: XY, point: XY) -> (hit: bool)
    requires
        top_left.x <= bottom_right.x,
        top_left.y <= bottom_right.y,
    ensures
        hit == (top_left.x <= point.x <= bottom_right.x && top_left.y <= point.y
            <= bottom_right.y),
{
    cursive_core::Rect::from_corners(
        (top_left.x, top_left.y),
        (bottom_right.x, bottom_right.y),
    ).contains(cursive_core::Vec2::new(point.x, point.y))
}

impl Rect {
    /// Returns whether the cell past the last cell of the window can still be
    /// numbered.
    pub fn is_bounded(&self) -> (bounded: bool)
        ensures
            bounded == self.bounded(),
    {
        let right = if self.size.x == 0 {
            Some(self.top_left.x)
        } else {
            self.top_left.x.checked_add(self.size.x - 1)
        };
        let bottom = if self.size.y == 0 {
            Some(self.top_left.y)
        } else {
            self.top_left.y.checked_add(self.size.y - 1)
        };
        match (right, bottom) {
            (Some(right), Some(bottom)) => right < usize::MAX && bottom < usize::MAX,
            _ => false,
        }
    }

    /// Whether the cell `point` lies in the window that shows this rectangle.
    pub fn contains(&self, point: XY) -> (hit: bool)
        requires
            self.bounded(),
        ensures
            hit == self.window_holds(point),
    {
        let corner = window_corner(*self);
        corners_contain(self.top_left, corner, point)
    }
}

} // verus!
