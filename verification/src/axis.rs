//! One line of a flexbox.

use vstd::prelude::*;
use crate::align::{is_place_in_line, lemma_cross_size_covers};
use crate::container::FlexboxLayout;
use crate::distribute::{
    grow_extra, grow_given, grow_portion, lemma_grow_given_bounds, lemma_grow_portion_bounds,
    lemma_grow_total_of_prefix, lemma_main_bounds, lemma_placed_bounds, main_length, main_start,
};
use crate::error::FlexboxError;
use crate::geometry::Rect;
use crate::item::FlexItem;
use crate::measure::{
    cross_size, free_space, grow_total, lemma_cross_size_step, lemma_grow_total_step,
    lemma_main_run_step, lemma_runs_nonnegative, main_reach, main_run, used_space,
};
use crate::options::{AlignItems, FlexWrap};
use crate::pack::accommodates;
use crate::spread::{
    handed, lemma_justify_lead_is_lead, lemma_walk_bounds, space_before, space_behind, unspent,
};

verus! {

/// A single main axis of a flexbox. In a flexbox without wrap, this will be
/// the only main axis and contain all the items. In a flexbox with wrap, this
/// axis will only hold as many items as it can accommodate given the size of
/// the main axis and the gap size of the main axis.
pub struct MainAxis {
    /// The place of this axis' first item among the items of the flexbox.
    pub first: usize,
    /// The items in this main axis.
    pub items: Vec<FlexItem>,
    /// Cache value for the space that the items and the gaps between them
    /// take.
    pub used_space: usize,
    /// Cache value for the remaining free space in this axis.
    pub free_space: usize,
}

impl MainAxis {
    /// Whether a line of these items in the given layout can be measured in
    /// machine integers: as far as the run of its items and the container,
    /// end to end, may reach, the cells can be numbered, and so can its cross
    /// size and its grow factors.
    pub open spec fn measurable(items: Seq<FlexItem>, first: int, layout: FlexboxLayout) -> bool {
        let dir = layout.options.direction;
        let gap = layout.options.main_axis_gap as int;
        &&& main_reach(dir, main_run(items, dir, gap) + layout.main_extent()) < usize::MAX
        &&& cross_size(items, dir) < usize::MAX
        &&& grow_total(items) <= usize::MAX
        &&& first + items.len() <= usize::MAX
    }

    /// The caches hold what the items measure, and the line is measurable.
    pub open spec fn wf(self, layout: FlexboxLayout) -> bool {
        let dir = layout.options.direction;
        let gap = layout.options.main_axis_gap as int;
        &&& self.used_space == used_space(self.items@, dir, gap)
        &&& self.free_space == free_space(self.items@, dir, gap, layout.main_extent())
        &&& Self::measurable(self.items@, self.first as int, layout)
    }

    /// Create a new main axis part for the given layout, for the items from
    /// place `first` on.
    pub fn new(layout: &FlexboxLayout, first: usize) -> (axis: Self)
        requires
            main_reach(layout.options.direction, layout.main_extent()) < usize::MAX,
        ensures
            axis.items@ == Seq::<FlexItem>::empty(),
            axis.first == first,
            axis.wf(*layout),
    {
        let free_space = layout.options.direction.main_axis(layout.size);
        MainAxis { first, items: Vec::new(), used_space: 0, free_space }
    }

    /// Return the number of items on this axis.
    pub fn number_of_items(&self) -> (n: usize)
        ensures
            n == self.items@.len(),
    {
        self.items.len()
    }

    /// Sum of the flex-grow of all the items in this axis.
    pub fn combined_grow_factor(&self) -> (total: usize)
        requires
            grow_total(self.items@) <= usize::MAX,
        ensures
            total == grow_total(self.items@),
    {
        let mut total_grow_factor: usize = 0;
        let mut i: usize = 0;
        while i < self.items.len()
            invariant
                i <= self.items@.len(),
                total_grow_factor == grow_total(self.items@.take(i as int)),
                grow_total(self.items@) <= usize::MAX,
            decreases self.items@.len() - i,
        {
            proof {
                lemma_grow_total_step(self.items@, i as int);
                crate::distribute::lemma_grow_total_of_prefix(self.items@, i as int);
            }
            total_grow_factor = total_grow_factor + self.items[i].flex_grow as usize;
            i = i + 1;
        }
        assert(self.items@.take(i as int) =~= self.items@);
        total_grow_factor
    }

    /// Return the cross axis size. The size of the cross axis is the maximum
    /// size of its elements along the cross axis.
    pub fn cross_axis_size(&self, layout: &FlexboxLayout) -> (size: usize)
        ensures
            size == cross_size(self.items@, layout.options.direction),
    {
        let mut maximum_item_cross_axis_size: usize = 0;
        let mut i: usize = 0;
        while i < self.items.len()
            invariant
                i <= self.items@.len(),
                maximum_item_cross_axis_size == cross_size(
                    self.items@.take(i as int),
                    layout.options.direction,
                ),
            decreases self.items@.len() - i,
        {
            proof {
                lemma_cross_size_step(self.items@, layout.options.direction, i as int);
            }
            let own = layout.options.direction.cross_axis(self.items[i].required_size);
            if own > maximum_item_cross_axis_size {
                maximum_item_cross_axis_size = own;
            }
            i = i + 1;
        }
        assert(self.items@.take(i as int) =~= self.items@);
        maximum_item_cross_axis_size
    }

    /// Return whether this axis can accommodate `item` with the amount of
    /// free space it has left. A main axis can accommodate an item if the
    /// flexbox does not wrap, or the axis is empty, or it has enough space
    /// for the item and the gap that would be added.
    pub fn can_accomodate(&self, item: &FlexItem, layout: &FlexboxLayout) -> (fits: bool)
        requires
            self.wf(*layout),
            Self::measurable(self.items@.push(*item), self.first as int, *layout),
        ensures
            fits == accommodates(self.items@, *item, layout.options, layout.main_extent()),
    {
        proof {
            assert(self.items@.push(*item).drop_last() =~= self.items@);
            lemma_runs_nonnegative(
                self.items@,
                layout.options.direction,
                layout.options.main_axis_gap as int,
            );
        }
        match layout.options.wrap {
            FlexWrap::NoWrap => true,
            _ => {
                if self.items.len() == 0 {
                    true
                } else {
                    let extra_used_space = layout.flexitem_main_axis_size(item)
                        + layout.options.main_axis_gap as usize;
                    self.used_space + extra_used_space <= layout.options.direction.main_axis(
                        layout.size,
                    )
                }
            },
        }
    }

    /// Try to add `item` to this main axis, fail if this axis can't
    /// accommodate the item.
    pub fn add_item(&mut self, item: FlexItem, layout: &FlexboxLayout) -> (result: Result<
        (),
        FlexboxError,
    >)
        requires
            old(self).wf(*layout),
            Self::measurable(old(self).items@.push(item), old(self).first as int, *layout),
        ensures
            result is Ok <==> accommodates(
                old(self).items@,
                item,
                layout.options,
                layout.main_extent(),
            ),
            result is Ok ==> final(self).items@ == old(self).items@.push(item),
            result is Ok ==> final(self).first == old(self).first,
            result is Err ==> result == Err::<(), FlexboxError>(FlexboxError::AxisFull),
            result is Err ==> *final(self) == *old(self),
            final(self).wf(*layout),
    {
        if self.can_accomodate(&item, layout) {
            proof {
                assert(self.items@.push(item).drop_last() =~= self.items@);
                lemma_runs_nonnegative(
                    self.items@,
                    layout.options.direction,
                    layout.options.main_axis_gap as int,
                );
            }
            let size = layout.flexitem_main_axis_size(&item);
            self.free_space = self.free_space.saturating_sub(size);
            self.used_space = self.used_space + size;
            // Only add gaps if there is already an item.
            if self.number_of_items() >= 1 {
                self.free_space = self.free_space.saturating_sub(
                    layout.options.main_axis_gap as usize,
                );
                self.used_space = self.used_space + layout.options.main_axis_gap as usize;
            }
            self.items.push(item);
            Ok(())
        } else {
            Err(FlexboxError::AxisFull)
        }
    }
}

/// The part of `left` cells that goes to an item with grow factor `grow`
/// while grow factors of `grow_left` are still to be served.
fn grow_share(left: usize, grow: u8, grow_left: usize) -> (share: usize)
    requires
        0 < grow_left,
        grow <= grow_left,
    ensures
        share == grow_portion(left as int, grow as int, grow_left as int),
        share <= left,
{
    assert(left * grow <= u128::MAX) by (nonlinear_arith)
        requires
            left <= 0xffff_ffff_ffff_ffff,
            grow <= 255,
    ;
    let product: u128 = left as u128 * grow as u128;
    let share: u128 = product / grow_left as u128;
    proof {
        lemma_grow_portion_bounds(left as int, grow as int, grow_left as int);
    }
    share as usize
}

impl MainAxis {
    /// Where each item starts along the main axis and how long it is, on a
    /// line whose items ask for growth: the free space goes to them, item
    /// by item.
    fn grow_placements(&self, layout: &FlexboxLayout, combined_grow_factor: usize) -> (placements:
        Vec<(usize, usize)>)
        requires
            self.wf(*layout),
            combined_grow_factor == grow_total(self.items@),
            combined_grow_factor > 0,
        ensures
            placements@.len() == self.items@.len(),
            forall|k: int|
                0 <= k < self.items@.len() ==> (#[trigger] placements@[k]).0 == main_start(
                    self.items@,
                    layout.options,
                    layout.main_extent(),
                    k,
                ) && placements@[k].1 == main_length(
                    self.items@,
                    layout.options,
                    layout.main_extent(),
                    k,
                ),
    {
        let n = self.items.len();
        let gap = layout.options.main_axis_gap as usize;
        let ghost dir = layout.options.direction;
        let ghost free = self.free_space as int;
        let mut placements: Vec<(usize, usize)> = Vec::new();
        let mut offset: usize = 0;
        let mut assignable_free_space: usize = self.free_space;
        let mut remaining_grow_factor: usize = combined_grow_factor;
        let mut i: usize = 0;
        proof {
            assert(self.items@.take(0).len() == 0);
        }
        while i < n
            invariant
                n == self.items@.len(),
                i <= n,
                self.wf(*layout),
                combined_grow_factor == grow_total(self.items@),
                combined_grow_factor > 0,
                gap == layout.options.main_axis_gap,
                dir == layout.options.direction,
                free == self.free_space,
                offset == main_run(self.items@.take(i as int), dir, gap as int) + grow_given(
                    self.items@,
                    free,
                    i as int,
                ),
                assignable_free_space == free - grow_given(self.items@, free, i as int),
                remaining_grow_factor == combined_grow_factor - grow_total(
                    self.items@.take(i as int),
                ),
                placements@.len() == i,
                forall|k: int|
                    0 <= k < i ==> (#[trigger] placements@[k]).0 == main_start(
                        self.items@,
                        layout.options,
                        layout.main_extent(),
                        k,
                    ) && placements@[k].1 == main_length(
                        self.items@,
                        layout.options,
                        layout.main_extent(),
                        k,
                    ),
            decreases n - i,
        {
            let item = &self.items[i];
            let item_main_axis_size = layout.flexitem_main_axis_size(item);
            proof {
                lemma_grow_total_of_prefix(self.items@, i as int);
                lemma_grow_total_step(self.items@, i as int);
                lemma_grow_given_bounds(self.items@, free, i as int);
                lemma_main_run_step(self.items@, dir, gap as int, i as int);
                lemma_main_bounds(self.items@, layout.options, layout.main_extent(), i as int);
            }
            let mut current_item_assigned_space: usize = 0;
            if remaining_grow_factor > 0 {
                current_item_assigned_space = grow_share(
                    assignable_free_space,
                    item.flex_grow,
                    remaining_grow_factor,
                );
            }
            assert(current_item_assigned_space == grow_extra(self.items@, free, i as int));
            placements.push((offset, item_main_axis_size + current_item_assigned_space));
            offset = offset + item_main_axis_size + gap + current_item_assigned_space;
            assignable_free_space = assignable_free_space - current_item_assigned_space;
            remaining_grow_factor = remaining_grow_factor - item.flex_grow as usize;
            i = i + 1;
        }
        placements
    }
}

impl MainAxis {
    /// Where each item starts along the main axis and how long it is, on a
    /// line without an item that asks for growth: the free space is placed
    /// around the items as `justify-content` says.
    fn justify_placements(&self, layout: &FlexboxLayout) -> (placements: Vec<(usize, usize)>)
        requires
            self.wf(*layout),
            grow_total(self.items@) == 0,
        ensures
            placements@.len() == self.items@.len(),
            forall|k: int|
                0 <= k < self.items@.len() ==> (#[trigger] placements@[k]).0 == main_start(
                    self.items@,
                    layout.options,
                    layout.main_extent(),
                    k,
                ) && placements@[k].1 == main_length(
                    self.items@,
                    layout.options,
                    layout.main_extent(),
                    k,
                ),
    {
        let n = self.items.len();
        let gap = layout.options.main_axis_gap as usize;
        let justify = layout.options.justification.to_spread();
        let free = self.free_space;
        let ghost dir = layout.options.direction;
        let mut placements: Vec<(usize, usize)> = Vec::new();
        let mut offset: usize = 0;
        let mut assignable_free_space: usize = self.free_space;
        let mut i: usize = 0;
        proof {
            assert(self.items@.take(0).len() == 0);
            lemma_walk_bounds(justify, free as int, n as int, 0);
        }
        while i < n
            invariant
                n == self.items@.len(),
                i <= n,
                self.wf(*layout),
                grow_total(self.items@) == 0,
                gap == layout.options.main_axis_gap,
                justify == layout.options.justification.spread(),
                dir == layout.options.direction,
                free == self.free_space,
                offset == main_run(self.items@.take(i as int), dir, gap as int) + handed(
                    justify,
                    free as int,
                    n as int,
                    i as int,
                ),
                assignable_free_space == unspent(justify, free as int, n as int, i as int),
                placements@.len() == i,
                forall|k: int|
                    0 <= k < i ==> (#[trigger] placements@[k]).0 == main_start(
                        self.items@,
                        layout.options,
                        layout.main_extent(),
                        k,
                    ) && placements@[k].1 == main_length(
                        self.items@,
                        layout.options,
                        layout.main_extent(),
                        k,
                    ),
            decreases n - i,
        {
            let item = &self.items[i];
            let item_main_axis_size = layout.flexitem_main_axis_size(item);
            proof {
                lemma_main_run_step(self.items@, dir, gap as int, i as int);
                lemma_main_bounds(self.items@, layout.options, layout.main_extent(), i as int);
                lemma_walk_bounds(justify, free as int, n as int, i as int);
                lemma_walk_bounds(justify, free as int, n as int, i + 1);
                lemma_justify_lead_is_lead(
                    layout.options.justification,
                    free as int,
                    n as int,
                    i as int,
                );
                crate::measure::lemma_runs_of_part(self.items@, dir, gap as int, 0, i + 1);
                assert(self.items@.subrange(0, i + 1) =~= self.items@.take(i + 1));
                lemma_runs_nonnegative(self.items@.take(0), dir, gap as int);
                lemma_runs_nonnegative(self.items@.skip(i + 1), dir, gap as int);
            }
            let before = space_before(justify, free, n, i, assignable_free_space);
            offset = offset + before.0;
            placements.push((offset, item_main_axis_size));
            let behind = space_behind(justify, free, n, i, before.1);
            offset = offset + behind.0 + item_main_axis_size + gap;
            assignable_free_space = behind.1;
            i = i + 1;
        }
        placements
    }
}

impl MainAxis {
    /// Returns the items, each named by its place among the items of the
    /// flexbox, and their corresponding windows in the local coordinates
    /// (relative to the top-left of the bounding box of this axis).
    pub fn windows(&self, layout: &FlexboxLayout) -> (windows: Vec<(usize, Rect)>)
        requires
            self.wf(*layout),
        ensures
            windows@.len() == self.items@.len(),
            forall|k: int|
                0 <= k < self.items@.len() ==> {
                    &&& (#[trigger] windows@[k]).0 == self.first + k
                    &&& is_place_in_line(
                        windows@[k].1,
                        self.items@,
                        layout.options,
                        layout.size,
                        k,
                    )
                    &&& windows@[k].1.bounded()
                },
    {
        let n = self.items.len();
        let dir = layout.options.direction;
        let combined_grow_factor = self.combined_grow_factor();
        let placements = if combined_grow_factor > 0 {
            // Axis contains elements that want the free space. Give it to
            // them, don't use justify-content.
            self.grow_placements(layout, combined_grow_factor)
        } else {
            // Axis doesn't contain elements that want free space. Use the
            // justify-content property to decide positioning.
            self.justify_placements(layout)
        };
        let cross_axis_size = self.cross_axis_size(layout);
        let reverse = dir.reversed();
        let mut windows: Vec<(usize, Rect)> = Vec::new();
        let mut k: usize = 0;
        while k < n
            invariant
                n == self.items@.len(),
                k <= n,
                self.wf(*layout),
                dir == layout.options.direction,
                reverse == dir.is_reverse(),
                cross_axis_size == cross_size(self.items@, dir),
                placements@.len() == n,
                forall|j: int|
                    0 <= j < n ==> (#[trigger] placements@[j]).0 == main_start(
                        self.items@,
                        layout.options,
                        layout.main_extent(),
                        j,
                    ) && placements@[j].1 == main_length(
                        self.items@,
                        layout.options,
                        layout.main_extent(),
                        j,
                    ),
                windows@.len() == k,
                forall|j: int|
                    0 <= j < k ==> {
                        &&& (#[trigger] windows@[j]).0 == self.first + j
                        &&& is_place_in_line(
                            windows@[j].1,
                            self.items@,
                            layout.options,
                            layout.size,
                            j,
                        )
                        &&& windows@[j].1.bounded()
                    },
            decreases n - k,
        {
            let item = &self.items[k];
            let placement = placements[k];
            proof {
                lemma_placed_bounds(self.items@, layout.options, layout.main_extent(), k as int);
                lemma_main_bounds(self.items@, layout.options, layout.main_extent(), n - 1);
                lemma_main_bounds(self.items@, layout.options, layout.main_extent(), k as int);
                lemma_runs_nonnegative(self.items@, dir, layout.options.main_axis_gap as int);
                lemma_cross_size_covers(self.items@, dir, k as int);
            }
            // Decides where the item starts along the main axis: in a
            // reversed direction where its counterpart from the other end
            // would start. Its length there is fixed already.
            let start = if reverse {
                placements[n - 1 - k].0
            } else {
                placement.0
            };
            // Decides where the item lies across the axis.
            let own = dir.cross_axis(item.required_size);
            let across = match layout.options.item_alignment {
                AlignItems::FlexStart => (0, own),
                AlignItems::FlexEnd => (cross_axis_size - own, own),
                AlignItems::Center => ((cross_axis_size - own) / 2, own),
                AlignItems::Stretch => (0, cross_axis_size),
            };
            let rect = Rect::new(
                dir.place(start, across.0),
                dir.place(placement.1, across.1),
            );
            windows.push((self.first + k, rect));
            k = k + 1;
        }
        windows
    }
}

} // verus!
