//! The flexbox: its items, its options, and the layout that it computes.

use vstd::prelude::*;
use crate::align::is_item_place;
use crate::container::FlexboxLayout;
use crate::error::FlexboxError;
use crate::geometry::XY;
use crate::item::FlexItem;
use crate::layout::{Layout, PlacedElement};
use crate::measure::{
    cross_run, grow_total, lemma_cross_run_step, lemma_grow_total_of_part, lemma_grow_total_step,
    lemma_main_run_step, lemma_runs_nonnegative, lemma_runs_of_part, main_run,
};
use crate::options::{
    AlignContent, AlignItems, FlexBoxOptions, FlexDirection, FlexWrap, JustifyContent,
};
use crate::pack::{
    lemma_line_of, lemma_lines_cover, line_count, line_start, packing_index, stacked_lines,
};

verus! {

/// A container that can be used to display a list of items in a flexible way.
pub struct Flexbox {
    /// The content of the flexbox. Order is always dictated by the order of
    /// the items in `content`. There is no way to overwrite this.
    pub content: Vec<FlexItem>,
    /// Options to alter the behavior.
    pub options: FlexBoxOptions,
}

impl Flexbox {
    /// Whether a layout of this flexbox in a container of the given size can
    /// be measured in machine integers.
    pub open spec fn measurable(self, constraints: XY) -> bool {
        FlexboxLayout::measurable(self.content@, constraints, self.options)
    }

    /// Create a new Flexbox with default options.
    pub fn new() -> (flexbox: Self)
        ensures
            flexbox.content@ == Seq::<FlexItem>::empty(),
            flexbox.options == FlexBoxOptions::baseline(),
    {
        Flexbox { content: Vec::new(), options: FlexBoxOptions::default() }
    }

    /// Add an item to the end.
    pub fn push(&mut self, item: FlexItem)
        ensures
            final(self).content@ == old(self).content@.push(item),
            final(self).options == old(self).options,
    {
        self.content.push(item);
    }

    /// Remove all items.
    pub fn clear(&mut self)
        ensures
            final(self).content@ == Seq::<FlexItem>::empty(),
            final(self).options == old(self).options,
    {
        self.content.clear();
    }

    /// Insert an item at `index`. An index behind the place after the last
    /// item is refused, and the flexbox is left as it was.
    pub fn insert(&mut self, index: usize, item: FlexItem) -> (result: Result<(), FlexboxError>)
        ensures
            index <= old(self).content@.len() ==> result is Ok && final(self).content@ == old(
                self,
            ).content@.insert(index as int, item),
            index > old(self).content@.len() ==> result == Err::<(), FlexboxError>(
                FlexboxError::OutOfRange,
            ) && final(self).content@ == old(self).content@,
            final(self).options == old(self).options,
    {
        if index <= self.content.len() {
            self.content.insert(index, item);
            Ok(())
        } else {
            Err(FlexboxError::OutOfRange)
        }
    }

    /// Set the grow factor of an item. An index that names no item is
    /// refused, and the flexbox is left as it was.
    pub fn set_flex_grow(&mut self, index: usize, flex_grow: u8) -> (result: Result<
        (),
        FlexboxError,
    >)
        ensures
            index < old(self).content@.len() ==> result is Ok && final(self).content@ == old(
                self,
            ).content@.update(
                index as int,
                FlexItem {
                    required_size: old(self).content@[index as int].required_size,
                    flex_grow,
                },
            ),
            index >= old(self).content@.len() ==> result == Err::<(), FlexboxError>(
                FlexboxError::OutOfRange,
            ) && final(self).content@ == old(self).content@,
            final(self).options == old(self).options,
    {
        if index < self.content.len() {
            let mut item = self.content[index];
            item.set_flex_grow(flex_grow);
            self.content.set(index, item);
            Ok(())
        } else {
            Err(FlexboxError::OutOfRange)
        }
    }

    /// Set the size that the content of an item requires. An index that
    /// names no item is refused, and the flexbox is left as it was.
    pub fn set_required_size(&mut self, index: usize, required_size: XY) -> (result: Result<
        (),
        FlexboxError,
    >)
        ensures
            index < old(self).content@.len() ==> result is Ok && final(self).content@ == old(
                self,
            ).content@.update(
                index as int,
                FlexItem { required_size, flex_grow: old(self).content@[index as int].flex_grow },
            ),
            index >= old(self).content@.len() ==> result == Err::<(), FlexboxError>(
                FlexboxError::OutOfRange,
            ) && final(self).content@ == old(self).content@,
            final(self).options == old(self).options,
    {
        if index < self.content.len() {
            let mut item = self.content[index];
            item.set_required_size(required_size);
            self.content.set(index, item);
            Ok(())
        } else {
            Err(FlexboxError::OutOfRange)
        }
    }

    /// Returns the number of items in the flexbox.
    pub fn len(&self) -> (n: usize)
        ensures
            n == self.content@.len(),
    {
        self.content.len()
    }

    /// Returns whether the flexbox is empty.
    pub fn is_empty(&self) -> (empty: bool)
        ensures
            empty == (self.content@.len() == 0),
    {
        self.content.len() == 0
    }

    /// Remove an item from the flexbox. An index that names no item is
    /// refused, and the flexbox is left as it was.
    pub fn remove(&mut self, index: usize) -> (result: Result<(), FlexboxError>)
        ensures
            index < old(self).content@.len() ==> result is Ok && final(self).content@ == old(
                self,
            ).content@.remove(index as int),
            index >= old(self).content@.len() ==> result == Err::<(), FlexboxError>(
                FlexboxError::OutOfRange,
            ) && final(self).content@ == old(self).content@,
            final(self).options == old(self).options,
    {
        if index < self.content.len() {
            self.content.remove(index);
            Ok(())
        } else {
            Err(FlexboxError::OutOfRange)
        }
    }

    /// Gap between items on the main axis.
    pub fn main_axis_gap(&self) -> (gap: u32)
        ensures
            gap == self.options.main_axis_gap,
    {
        self.options.main_axis_gap
    }

    /// Set the fixed gap between elements on the main axis.
    pub fn set_main_axis_gap(&mut self, gap: u32)
        ensures
            final(self).options == (FlexBoxOptions { main_axis_gap: gap, ..old(self).options }),
            final(self).content@ == old(self).content@,
    {
        self.options.main_axis_gap = gap;
    }

    /// Gap between the main axes.
    pub fn cross_axis_gap(&self) -> (gap: u32)
        ensures
            gap == self.options.cross_axis_gap,
    {
        self.options.cross_axis_gap
    }

    /// Set the fixed gap between the main axes.
    pub fn set_cross_axis_gap(&mut self, gap: u32)
        ensures
            final(self).options == (FlexBoxOptions { cross_axis_gap: gap, ..old(self).options }),
            final(self).content@ == old(self).content@,
    {
        self.options.cross_axis_gap = gap;
    }

    /// Get the justify-content option.
    pub fn justify_content(&self) -> (justify_content: JustifyContent)
        ensures
            justify_content == self.options.justification,
    {
        self.options.justification
    }

    /// Set the justify-content option.
    pub fn set_justify_content(&mut self, justify_content: JustifyContent)
        ensures
            final(self).options == (FlexBoxOptions {
                justification: justify_content,
                ..old(self).options
            }),
            final(self).content@ == old(self).content@,
    {
        self.options.justification = justify_content;
    }

    /// Get the align-items option.
    pub fn align_items(&self) -> (item_alignment: AlignItems)
        ensures
            item_alignment == self.options.item_alignment,
    {
        self.options.item_alignment
    }

    /// Set the align-items option.
    pub fn set_align_items(&mut self, item_alignment: AlignItems)
        ensures
            final(self).options == (FlexBoxOptions { item_alignment, ..old(self).options }),
            final(self).content@ == old(self).content@,
    {
        self.options.item_alignment = item_alignment;
    }

    /// Get the align-content option.
    pub fn align_content(&self) -> (axes_alignment: AlignContent)
        ensures
            axes_alignment == self.options.axes_alignment,
    {
        self.options.axes_alignment
    }

    /// Set the align-content option.
    pub fn set_align_content(&mut self, axes_alignment: AlignContent)
        ensures
            final(self).options == (FlexBoxOptions { axes_alignment, ..old(self).options }),
            final(self).content@ == old(self).content@,
    {
        self.options.axes_alignment = axes_alignment;
    }

    /// Get the flex-direction option.
    pub fn flex_direction(&self) -> (direction: FlexDirection)
        ensures
            direction == self.options.direction,
    {
        self.options.direction
    }

    /// Set the direction of the main axis.
    pub fn set_flex_direction(&mut self, direction: FlexDirection)
        ensures
            final(self).options == (FlexBoxOptions { direction, ..old(self).options }),
            final(self).content@ == old(self).content@,
    {
        self.options.direction = direction;
    }

    /// Get the flex-wrap option.
    pub fn flex_wrap(&self) -> (wrap: FlexWrap)
        ensures
            wrap == self.options.wrap,
    {
        self.options.wrap
    }

    /// Set the wrapping behavior.
    pub fn set_flex_wrap(&mut self, wrap: FlexWrap)
        ensures
            final(self).options == (FlexBoxOptions { wrap, ..old(self).options }),
            final(self).content@ == old(self).content@,
    {
        self.options.wrap = wrap;
    }
}

impl From<Vec<FlexItem>> for Flexbox {
    /// A flexbox of the given items, with default options.
    fn from(value: Vec<FlexItem>) -> (flexbox: Self) {
        Flexbox { content: value, options: FlexBoxOptions::default() }
    }
}

impl vstd::std_specs::convert::FromSpecImpl<Vec<FlexItem>> for Flexbox {
    open spec fn obeys_from_spec() -> bool {
        true
    }

    open spec fn from_spec(value: Vec<FlexItem>) -> Self {
        Flexbox { content: value, options: FlexBoxOptions::baseline() }
    }
}

impl Default for Flexbox {
    fn default() -> (flexbox: Self)
        ensures
            flexbox.content@ == Seq::<FlexItem>::empty(),
            flexbox.options == FlexBoxOptions::baseline(),
    {
        Flexbox::new()
    }
}

impl Flexbox {
    /// Returns whether a layout of this flexbox in a container of the given
    /// size can be measured in machine integers.
    pub fn is_measurable(&self, constraints: XY) -> (measurable: bool)
        ensures
            measurable == self.measurable(constraints),
    {
        let dir = self.options.direction;
        let main_gap = self.options.main_axis_gap as usize;
        let cross_gap = self.options.cross_axis_gap as usize;
        let n = self.content.len();
        let mut main: usize = dir.main_axis(constraints);
        let mut cross: usize = dir.cross_axis(constraints);
        let mut grow: usize = 0;
        let mut i: usize = 0;
        proof {
            assert(self.content@.take(0).len() == 0);
        }
        while i < n
            invariant
                n == self.content@.len(),
                i <= n,
                dir == self.options.direction,
                main_gap == self.options.main_axis_gap,
                cross_gap == self.options.cross_axis_gap,
                main == main_run(self.content@.take(i as int), dir, main_gap as int) + dir.main_of(
                    constraints,
                ),
                cross == cross_run(self.content@.take(i as int), dir, cross_gap as int)
                    + dir.cross_of(constraints),
                grow == grow_total(self.content@.take(i as int)),
            decreases n - i,
        {
            let item = &self.content[i];
            proof {
                lemma_main_run_step(self.content@, dir, main_gap as int, i as int);
                lemma_cross_run_step(self.content@, dir, cross_gap as int, i as int);
                lemma_grow_total_step(self.content@, i as int);
                lemma_runs_of_part(self.content@, dir, main_gap as int, 0, i + 1);
                lemma_runs_of_part(self.content@, dir, cross_gap as int, 0, i + 1);
                lemma_grow_total_of_part(self.content@, 0, i + 1);
                lemma_runs_nonnegative(self.content@, dir, main_gap as int);
                assert(self.content@.subrange(0, i + 1) =~= self.content@.take(i + 1));
            }
            let main_step = dir.main_axis(item.required_size).checked_add(main_gap);
            let cross_step = dir.cross_axis(item.required_size).checked_add(cross_gap);
            let next_main = match main_step {
                Some(step) => main.checked_add(step),
                None => None,
            };
            let next_cross = match cross_step {
                Some(step) => cross.checked_add(step),
                None => None,
            };
            let next_grow = grow.checked_add(item.flex_grow as usize);
            match (next_main, next_cross, next_grow) {
                (Some(m), Some(c), Some(g)) => {
                    main = m;
                    cross = c;
                    grow = g;
                },
                _ => {
                    return false;
                },
            }
            i = i + 1;
        }
        proof {
            assert(self.content@.take(n as int) =~= self.content@);
        }
        if main >= usize::MAX || cross >= usize::MAX {
            return false;
        }
        if dir.reversed() {
            match main.checked_add(main) {
                Some(reach) => reach < usize::MAX,
                None => false,
            }
        } else {
            true
        }
    }

    /// Generate the concrete layout of this flexbox with the given
    /// constraints: one element per item, in the order of the items, each
    /// named by its place among them and placed where the lines that the
    /// items pack into put it.
    pub fn generate_layout(&self, constraints: XY) -> (layout: Layout<usize>)
        requires
            self.measurable(constraints),
        ensures
            layout.elements@.len() == self.content@.len(),
            forall|i: int|
                0 <= i < self.content@.len() ==> {
                    &&& (#[trigger] layout.elements@[i]).element == i
                    &&& is_item_place(
                        layout.elements@[i].position,
                        self.content@,
                        self.options,
                        constraints,
                        i,
                    )
                },
            layout.bounded(),
    {
        let flex = FlexboxLayout::generate(
            &self.content,
            constraints.x,
            constraints.y,
            self.options,
        );
        let offsets = flex.line_offsets();
        let count = flex.main_axis_count();
        let ghost content = self.content@;
        let ghost options = self.options;
        let ghost extent = options.direction.main_of(constraints) as int;
        let mut result: Layout<usize> = Layout { elements: Vec::new() };
        let mut l: usize = 0;
        proof {
            assert(flex.lines() =~= stacked_lines(content, options, extent));
        }
        while l < count
            invariant
                content == self.content@,
                options == self.options,
                extent == options.direction.main_of(constraints),
                flex.size == constraints,
                flex.options == options,
                flex.packs(content),
                flex.wf(),
                flex.lines() == stacked_lines(content, options, extent),
                count == flex.main_axes@.len(),
                count == line_count(content, options, extent),
                l <= count,
                offsets@.len() == count,
                forall|s: int|
                    0 <= s < count ==> #[trigger] offsets@[s] == crate::stack::line_base(
                        flex.lines(),
                        flex.options,
                        flex.cross_extent(),
                        s,
                    ),
                result.elements@.len() == line_start(content, options, extent, l as int),
                forall|i: int|
                    0 <= i < result.elements@.len() ==> {
                        &&& (#[trigger] result.elements@[i]).element == i
                        &&& is_item_place(
                            result.elements@[i].position,
                            content,
                            options,
                            constraints,
                            i,
                        )
                        &&& result.elements@[i].position.bounded()
                    },
            decreases count - l,
        {
            let s = match self.options.wrap {
                FlexWrap::WrapReverse => count - 1 - l,
                _ => l,
            };
            let windows = flex.axis_windows(s, offsets[s]);
            let n = windows.len();
            let ghost first = line_start(content, options, extent, l as int);
            proof {
                lemma_lines_cover(content, options, extent, l as int);
                assert(s == packing_index(options.wrap, count as int, l as int));
                assert(l == packing_index(options.wrap, count as int, s as int));
                assert(flex.main_axes@[s as int].first == first);
                assert(n == line_start(content, options, extent, l + 1) - first);
            }
            let mut k: usize = 0;
            while k < n
                invariant
                    content == self.content@,
                    options == self.options,
                    extent == options.direction.main_of(constraints),
                    flex.size == constraints,
                    flex.options == options,
                    flex.lines() == stacked_lines(content, options, extent),
                    count == line_count(content, options, extent),
                    l < count,
                    s < count,
                    s == packing_index(options.wrap, count as int, l as int),
                    first == line_start(content, options, extent, l as int),
                    0 <= first,
                    n == windows@.len(),
                    n == line_start(content, options, extent, l + 1) - first,
                    first + n <= content.len(),
                    k <= n,
                    forall|j: int|
                        0 <= j < n ==> {
                            &&& (#[trigger] windows@[j]).0 == first + j
                            &&& crate::align::is_place(
                                windows@[j].1,
                                flex.lines(),
                                flex.options,
                                flex.size,
                                s as int,
                                j,
                            )
                            &&& windows@[j].1.bounded()
                        },
                    result.elements@.len() == first + k,
                    forall|i: int|
                        0 <= i < result.elements@.len() ==> {
                            &&& (#[trigger] result.elements@[i]).element == i
                            &&& is_item_place(
                                result.elements@[i].position,
                                content,
                                options,
                                constraints,
                                i,
                            )
                            &&& result.elements@[i].position.bounded()
                        },
                decreases n - k,
            {
                let window = windows[k];
                proof {
                    lemma_line_of(content, options, extent, first + k);
                    assert(line_start(content, options, extent, l as int) <= first + k
                        < line_start(content, options, extent, l + 1));
                }
                result.elements.push(PlacedElement { element: window.0, position: window.1 });
                k = k + 1;
            }
            l = l + 1;
        }
        proof {
            lemma_lines_cover(content, options, extent, count as int);
        }
        result
    }

    /// Generate the concrete layout of this flexbox with the given
    /// constraints, if it can be measured in machine integers.
    pub fn try_generate_layout(&self, constraints: XY) -> (layout: Option<Layout<usize>>)
        ensures
            layout is Some <==> self.measurable(constraints),
            layout is Some ==> {
                &&& layout->Some_0.elements@.len() == self.content@.len()
                &&& forall|i: int|
                    0 <= i < self.content@.len() ==> {
                        &&& (#[trigger] layout->Some_0.elements@[i]).element == i
                        &&& is_item_place(
                            layout->Some_0.elements@[i].position,
                            self.content@,
                            self.options,
                            constraints,
                            i,
                        )
                    }
                &&& layout->Some_0.bounded()
            },
    {
        if self.is_measurable(constraints) {
            Some(self.generate_layout(constraints))
        } else {
            None
        }
    }
}

} // verus!
