//! Functionality for laying out items in the 2D plane.

use vstd::prelude::*;
use crate::geometry::{window_corner, Rect, XY};

verus! {

/// A generic element that has a place (position + size) on the 2D plane.
pub struct PlacedElement<T> {
    /// The actual element that is represented at `position`.
    pub element: T,
    /// The location of the element on the 2D plane.
    pub position: Rect,
}

/// A concrete layout of elements.
pub struct Layout<T> {
    /// The elements that make up this layout.
    pub elements: Vec<PlacedElement<T>>,
}

/// The far edge of the window that shows an element: its last column, or
/// its last row.
pub open spec fn far_edge<T>(element: PlacedElement<T>, horizontal: bool) -> int {
    if horizontal {
        element.position.right_edge()
    } else {
        element.position.bottom_edge()
    }
}

/// How far a run of elements reaches along one axis. The reach starts at
/// zero and is raised, element by element in their order, to one past the far
/// edge of each element whose far edge lies beyond the reach.
pub open spec fn reach<T>(elements: Seq<PlacedElement<T>>, horizontal: bool) -> int
    decreases elements.len(),
{
    if elements.len() == 0 {
        0
    } else {
        let before = reach(elements.drop_last(), horizontal);
        let edge = far_edge(elements.last(), horizontal);
        if edge > before {
            edge + 1
        } else {
            before
        }
    }
}

impl<T> Layout<T> {
    /// The windows of all elements can be numbered to one past their last
    /// cell.
    pub open spec fn bounded(self) -> bool {
        forall|i: int|
            0 <= i < self.elements@.len() ==> (#[trigger] self.elements@[i]).position.bounded()
    }

    /// Returns whether the windows of all elements can be numbered to one
    /// past their last cell.
    pub fn is_bounded(&self) -> (bounded: bool)
        ensures
            bounded == self.bounded(),
    {
        let mut i: usize = 0;
        while i < self.elements.len()
            invariant
                i <= self.elements@.len(),
                forall|j: int| 0 <= j < i ==> (#[trigger] self.elements@[j]).position.bounded(),
            decreases self.elements@.len() - i,
        {
            if !self.elements[i].position.is_bounded() {
                return false;
            }
            i = i + 1;
        }
        true
    }

    /// Return the item at `position`, or None if there is no item: the first
    /// element, in their order, whose window holds the position.
    pub fn element_at(&self, position: XY) -> (found: Option<&PlacedElement<T>>)
        requires
            self.bounded(),
        ensures
            found is None <==> forall|i: int|
                0 <= i < self.elements@.len() ==> !(#[trigger] self.elements@[i]).position.window_holds(
                    position,
                ),
            found is Some ==> exists|i: int|
                {
                    &&& 0 <= i < self.elements@.len()
                    &&& *found->Some_0 == #[trigger] self.elements@[i]
                    &&& self.elements@[i].position.window_holds(position)
                    &&& forall|j: int|
                        0 <= j < i ==> !(#[trigger] self.elements@[j]).position.window_holds(
                            position,
                        )
                },
    {
        let mut i: usize = 0;
        while i < self.elements.len()
            invariant
                i <= self.elements@.len(),
                self.bounded(),
                forall|j: int|
                    0 <= j < i ==> !(#[trigger] self.elements@[j]).position.window_holds(position),
            decreases self.elements@.len() - i,
        {
            let element = &self.elements[i];
            if element.position.contains(position) {
                return Some(element);
            }
            i = i + 1;
        }
        None
    }

    /// Return an iterator over the items of this layout.
    pub fn iter(&self) -> (iter: std::slice::Iter<'_, PlacedElement<T>>)
        ensures
            vstd::std_specs::slice::into_iter_elts(iter) == self.elements@,
    {
        self.elements.as_slice().iter()
    }

    /// Return the size of this layout.
    pub fn size(&self) -> (size: XY)
        requires
            self.bounded(),
        ensures
            size.x == reach(self.elements@, true),
            size.y == reach(self.elements@, false),
    {
        let mut max_size = XY { x: 0, y: 0 };
        let mut i: usize = 0;
        while i < self.elements.len()
            invariant
                i <= self.elements@.len(),
                self.bounded(),
                max_size.x == reach(self.elements@.take(i as int), true),
                max_size.y == reach(self.elements@.take(i as int), false),
            decreases self.elements@.len() - i,
        {
            proof {
                assert(self.elements@.take(i + 1).drop_last() =~= self.elements@.take(i as int));
            }
            let corner = window_corner(self.elements[i].position);
            if corner.x > max_size.x {
                max_size.x = corner.x + 1;
            }
            if corner.y > max_size.y {
                max_size.y = corner.y + 1;
            }
            i = i + 1;
        }
        proof {
            assert(self.elements@.take(i as int) =~= self.elements@);
        }
        max_size
    }
}

/// Convert `global_coordinates` to coordinates within a view, using
/// `view_offset` as the top-left point of the view to convert to.
pub fn global_to_view_coordinates(global_coordinates: XY, view_offset: XY) -> (local: XY)
    requires
        view_offset.x <= global_coordinates.x,
        view_offset.y <= global_coordinates.y,
    ensures
        local.x == global_coordinates.x - view_offset.x,
        local.y == global_coordinates.y - view_offset.y,
{
    XY { x: global_coordinates.x - view_offset.x, y: global_coordinates.y - view_offset.y }
}

/// The area of a view that matters most: the place of the focused element of
/// its layout; the first cell, where there is no layout or no focused
/// element.
pub fn important_area<T>(layout: &Option<Layout<T>>, focused: Option<usize>) -> (area: Rect)
    requires
        layout is Some && focused is Some ==> focused->Some_0 < layout->Some_0.elements@.len(),
    ensures
        layout is Some && focused is Some ==> area == layout->Some_0.elements@[focused->Some_0
            as int].position,
        layout is None || focused is None ==> area == (Rect {
            top_left: XY { x: 0, y: 0 },
            size: XY { x: 1, y: 1 },
        }),
{
    match (layout, focused) {
        (Some(layout), Some(focused)) => layout.elements[focused].position,
        _ => Rect::new(XY::new(0, 0), XY::new(1, 1)),
    }
}

} // verus!
