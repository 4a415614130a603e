//! A flexbox with real dimensions, packed into lines.

use vstd::prelude::*;
use crate::axis::MainAxis;
use crate::geometry::XY;
use crate::item::FlexItem;
use crate::measure::{
    cross_run, grow_total, lemma_cross_run_concat, lemma_cross_size_within_run,
    lemma_grow_total_of_part, lemma_runs_nonnegative, lemma_runs_of_part, main_reach, main_run,
};
use crate::options::{FlexBoxOptions, FlexWrap};
use crate::pack::{
    accommodates, lemma_line_end_bounds, line_count, line_count_from, line_end, line_end_from,
    line_items, line_start, packing_index,
};
use crate::align::{is_place, is_place_in_line, lemma_cross_bounds, lemma_cross_size_covers};
use crate::geometry::Rect;
use crate::spread::{
    handed, lemma_content_lead_is_lead, lemma_walk_bounds, space_before, space_behind, unspent,
};
use crate::stack::{
    count_items, cross_free_space, flat_index, lemma_count_items_step, lemma_stack_run_bounds,
    lemma_stack_run_concat, lemma_stack_run_step, line_base, stack_run,
};

verus! {

/// An actual layout of a flexbox with real dimensions.
pub struct FlexboxLayout {
    /// The dimensions of the container.
    pub size: XY,
    /// Options for this particular layout of the flexbox.
    pub options: FlexBoxOptions,
    /// Parts that together form the entire main axis of this flexbox, in the
    /// order in which they are stacked along the cross axis.
    pub main_axes: Vec<MainAxis>,
}

/// The items of each axis, axis by axis.
pub open spec fn lines_of(axes: Seq<MainAxis>) -> Seq<Seq<FlexItem>> {
    Seq::new(axes.len(), |s: int| axes[s].items@)
}

impl FlexboxLayout {
    /// The length of the container along the main axis.
    pub open spec fn main_extent(self) -> int {
        self.options.direction.main_of(self.size) as int
    }

    /// The length of the container along the cross axis.
    pub open spec fn cross_extent(self) -> int {
        self.options.direction.cross_of(self.size) as int
    }

    /// The items of each line, in the order in which the lines are stacked.
    pub open spec fn lines(self) -> Seq<Seq<FlexItem>> {
        lines_of(self.main_axes@)
    }

    /// Whether a layout of these items in a container of this size can be
    /// measured in machine integers: along each axis, as far as the items
    /// with their gaps and the container, end to end, may reach, the cells
    /// can be numbered, and so can the sum of the grow factors.
    pub open spec fn measurable(content: Seq<FlexItem>, size: XY, options: FlexBoxOptions) -> bool {
        let dir = options.direction;
        &&& main_reach(dir, main_run(content, dir, options.main_axis_gap as int) + dir.main_of(size))
            < usize::MAX
        &&& cross_run(content, dir, options.cross_axis_gap as int) + dir.cross_of(size)
            < usize::MAX
        &&& grow_total(content) <= usize::MAX
    }

    /// Every line is well-formed, and the stack of the lines and the
    /// container, end to end, can be numbered.
    pub open spec fn wf(self) -> bool {
        &&& forall|s: int|
            0 <= s < self.main_axes@.len() ==> (#[trigger] self.main_axes@[s]).wf(self)
        &&& stack_run(self.lines(), self.options.direction, self.options.cross_axis_gap as int)
            + self.cross_extent() < usize::MAX
    }

    /// Whether the lines of this layout are the lines that `content` packs
    /// into, stacked in the order that the wrapping asks for.
    pub open spec fn packs(self, content: Seq<FlexItem>) -> bool {
        let extent = self.main_extent();
        let count = line_count(content, self.options, extent);
        &&& self.main_axes@.len() == count
        &&& forall|s: int|
            0 <= s < count ==> {
                let l = packing_index(self.options.wrap, count, s);
                &&& (#[trigger] self.main_axes@[s]).first == line_start(
                    content,
                    self.options,
                    extent,
                    l,
                )
                &&& self.main_axes@[s].items@ == line_items(content, self.options, extent, l)
            }
    }

    /// Return the size of a flex item along the main axis.
    pub fn flexitem_main_axis_size(&self, item: &FlexItem) -> (size: usize)
        ensures
            size == self.options.direction.main_of(item.required_size),
    {
        self.options.direction.main_axis(item.required_size)
    }

    /// Return the amount of main axes in this layout.
    pub fn main_axis_count(&self) -> (count: usize)
        ensures
            count == self.main_axes@.len(),
    {
        self.main_axes.len()
    }

    /// Generate the actual layout for the flexbox with `content` and given
    /// `width` and `height`.
    pub fn generate(
        content: &Vec<FlexItem>,
        width: usize,
        height: usize,
        options: FlexBoxOptions,
    ) -> (layout: FlexboxLayout)
        requires
            Self::measurable(content@, XY { x: width, y: height }, options),
        ensures
            layout.size == (XY { x: width, y: height }),
            layout.options == options,
            layout.packs(content@),
            layout.wf(),
            options.wrap == FlexWrap::NoWrap && content@.len() > 0 ==> layout.main_axes@.len()
                == 1,
            content@.len() == 0 ==> layout.main_axes@.len() == 0,
    {
        let frame = FlexboxLayout { size: XY::new(width, height), options, main_axes: Vec::new() };
        let ghost extent = frame.main_extent();
        let ghost dir = options.direction;
        let ghost cross_gap = options.cross_axis_gap as int;
        let mut main_axes: Vec<MainAxis> = Vec::new();
        let mut added: usize = 0;
        let length = content.len();
        proof {
            assert(lines_of(main_axes@) =~= Seq::<Seq<FlexItem>>::empty());
            assert(content@.take(0).len() == 0);
            lemma_runs_nonnegative(content@, dir, options.main_axis_gap as int);
        }
        while added < length
            invariant
                length == content@.len(),
                added <= length,
                frame.size == (XY { x: width, y: height }),
                frame.options == options,
                extent == frame.main_extent(),
                dir == options.direction,
                cross_gap == options.cross_axis_gap,
                Self::measurable(content@, frame.size, options),
                added == line_start(content@, options, extent, main_axes@.len() as int),
                main_axes@.len() + line_count_from(content@, options, extent, added as int)
                    == line_count(content@, options, extent),
                main_axes@.len() <= added,
                forall|s: int|
                    0 <= s < main_axes@.len() ==> {
                        let l = packing_index(options.wrap, main_axes@.len() as int, s);
                        &&& (#[trigger] main_axes@[s]).first == line_start(
                            content@,
                            options,
                            extent,
                            l,
                        )
                        &&& main_axes@[s].items@ == line_items(content@, options, extent, l)
                        &&& main_axes@[s].wf(frame)
                    },
                stack_run(lines_of(main_axes@), dir, cross_gap) <= cross_run(
                    content@.take(added as int),
                    dir,
                    cross_gap,
                ),
            decreases length - added,
        {
            let start = added;
            proof {
                lemma_runs_nonnegative(content@, dir, options.main_axis_gap as int);
            }
            let mut main_axis = MainAxis::new(&frame, added);
            let mut full = false;
            proof {
                assert(content@.subrange(start as int, start as int) =~= Seq::<FlexItem>::empty());
            }
            while added < length && !full
                invariant
                    length == content@.len(),
                    start <= added <= length,
                    frame.size == (XY { x: width, y: height }),
                    frame.options == options,
                    extent == frame.main_extent(),
                    Self::measurable(content@, frame.size, options),
                    main_axis.first == start,
                    main_axis.items@ == content@.subrange(start as int, added as int),
                    main_axis.wf(frame),
                    line_end_from(content@, options, extent, start as int, added as int)
                        == line_end(content@, options, extent, start as int),
                    full ==> added < length && !accommodates(
                        content@.subrange(start as int, added as int),
                        content@[added as int],
                        options,
                        extent,
                    ),
                decreases length - added + if full { 0int } else { 1int },
            {
                proof {
                    let longer = content@.subrange(start as int, added + 1);
                    assert(main_axis.items@.push(content@[added as int]) =~= longer);
                    lemma_runs_of_part(
                        content@,
                        options.direction,
                        options.main_axis_gap as int,
                        start as int,
                        added + 1,
                    );
                    lemma_runs_of_part(
                        content@,
                        options.direction,
                        options.cross_axis_gap as int,
                        start as int,
                        added + 1,
                    );
                    lemma_runs_nonnegative(
                        longer,
                        options.direction,
                        options.cross_axis_gap as int,
                    );
                    lemma_grow_total_of_part(content@, start as int, added + 1);
                }
                match main_axis.add_item(content[added], &frame) {
                    Ok(()) => {
                        // The current main axis could still hold the item.
                        added = added + 1;
                    },
                    Err(_) => {
                        // The current main axis couldn't hold the item anymore.
                        full = true;
                    },
                }
            }
            proof {
                let count = main_axes@.len() as int;
                let line = content@.subrange(start as int, added as int);
                lemma_line_end_bounds(content@, options, extent, start as int);
                assert(added == line_end(content@, options, extent, start as int));
                assert(added == line_start(content@, options, extent, count + 1));
                assert(line == line_items(content@, options, extent, count));
                lemma_cross_size_within_run(line, dir, cross_gap);
                assert(content@.take(added as int) =~= content@.take(start as int) + line);
                lemma_cross_run_concat(content@.take(start as int), line, dir, cross_gap);
            }
            let ghost before = main_axes@;
            match options.wrap {
                FlexWrap::NoWrap | FlexWrap::Wrap => {
                    main_axes.push(main_axis);
                    proof {
                        assert(lines_of(main_axes@).drop_last() =~= lines_of(before));
                        assert(lines_of(main_axes@).last() == main_axis.items@);
                        assert(main_axis.items@ == content@.subrange(start as int, added as int));
                    }
                },
                FlexWrap::WrapReverse => {
                    main_axes.insert(0, main_axis);
                    proof {
                        let single = seq![main_axis.items@];
                        assert(lines_of(main_axes@) =~= single + lines_of(before));
                        lemma_stack_run_concat(single, lines_of(before), dir, cross_gap);
                        assert(single.drop_last() =~= Seq::<Seq<FlexItem>>::empty());
                        assert(single.last() == main_axis.items@);
                        assert(stack_run(single.drop_last(), dir, cross_gap) == 0);
                        assert(stack_run(single, dir, cross_gap) == crate::measure::cross_size(
                            main_axis.items@,
                            dir,
                        ) + cross_gap);
                        assert(main_axis.items@ == content@.subrange(start as int, added as int));
                        assert forall|s: int| 0 <= s < main_axes@.len() implies {
                            let l = packing_index(options.wrap, main_axes@.len() as int, s);
                            &&& (#[trigger] main_axes@[s]).first == line_start(
                                content@,
                                options,
                                extent,
                                l,
                            )
                            &&& main_axes@[s].items@ == line_items(content@, options, extent, l)
                            &&& main_axes@[s].wf(frame)
                        } by {
                            if s > 0 {
                                assert(main_axes@[s] == before[s - 1]);
                            }
                        }
                    }
                },
            }
        }
        let layout = FlexboxLayout { size: frame.size, options, main_axes };
        proof {
            assert(content@.take(added as int) =~= content@);
            let axes = layout.main_axes@;
            assert forall|s: int| 0 <= s < axes.len() implies (#[trigger] axes[s]).wf(layout) by {
                assert(axes[s].wf(frame));
            }
            if options.wrap == FlexWrap::NoWrap && content@.len() > 0 {
                crate::laws::law_no_wrap_is_one_line(content@, options, extent);
            }
        }
        layout
    }
}

impl FlexboxLayout {
    /// Return the amount of left over space on the cross axis.
    pub fn cross_axis_free_space(&self) -> (free: usize)
        requires
            self.wf(),
        ensures
            free == cross_free_space(
                self.lines(),
                self.options.direction,
                self.options.cross_axis_gap as int,
                self.cross_extent(),
            ),
    {
        let count = self.main_axes.len();
        let gap = self.options.cross_axis_gap as usize;
        let ghost dir = self.options.direction;
        let ghost lines = self.lines();
        let mut used_space: usize = 0;
        let mut s: usize = 0;
        proof {
            assert(lines.take(0).len() == 0);
        }
        while s < count
            invariant
                count == self.main_axes@.len(),
                s <= count,
                self.wf(),
                gap == self.options.cross_axis_gap,
                dir == self.options.direction,
                lines == self.lines(),
                used_space == stack_run(lines.take(s as int), dir, gap as int),
            decreases count - s,
        {
            proof {
                lemma_stack_run_step(lines, dir, gap as int, s as int);
                lemma_stack_run_bounds(lines, dir, gap as int, s as int);
            }
            used_space = used_space + self.main_axes[s].cross_axis_size(self) + gap;
            s = s + 1;
        }
        proof {
            assert(lines.take(count as int) =~= lines);
            lemma_stack_run_bounds(lines, dir, gap as int, count as int);
        }
        if count > 0 {
            used_space = used_space - gap;
        }
        self.options.direction.cross_axis(self.size).saturating_sub(used_space)
    }

    /// Return where each main axis starts along the cross axis, in the order
    /// in which the axes are stacked.
    pub fn line_offsets(&self) -> (offsets: Vec<usize>)
        requires
            self.wf(),
        ensures
            offsets@.len() == self.main_axes@.len(),
            forall|s: int|
                0 <= s < self.main_axes@.len() ==> #[trigger] offsets@[s] == line_base(
                    self.lines(),
                    self.options,
                    self.cross_extent(),
                    s,
                ),
    {
        let count = self.main_axes.len();
        let gap = self.options.cross_axis_gap as usize;
        let spread = self.options.axes_alignment.to_spread();
        let free = self.cross_axis_free_space();
        let ghost dir = self.options.direction;
        let ghost lines = self.lines();
        let mut offsets: Vec<usize> = Vec::new();
        let mut cross_offset: usize = 0;
        let mut assignable_free_space: usize = free;
        let mut s: usize = 0;
        proof {
            assert(lines.take(0).len() == 0);
            lemma_walk_bounds(spread, free as int, count as int, 0);
        }
        while s < count
            invariant
                count == self.main_axes@.len(),
                s <= count,
                self.wf(),
                gap == self.options.cross_axis_gap,
                spread == self.options.axes_alignment.spread(),
                dir == self.options.direction,
                lines == self.lines(),
                free == cross_free_space(lines, dir, gap as int, self.cross_extent()),
                cross_offset == stack_run(lines.take(s as int), dir, gap as int) + handed(
                    spread,
                    free as int,
                    count as int,
                    s as int,
                ),
                assignable_free_space == unspent(spread, free as int, count as int, s as int),
                offsets@.len() == s,
                forall|t: int|
                    0 <= t < s ==> #[trigger] offsets@[t] == line_base(
                        lines,
                        self.options,
                        self.cross_extent(),
                        t,
                    ),
            decreases count - s,
        {
            proof {
                lemma_stack_run_step(lines, dir, gap as int, s as int);
                lemma_stack_run_bounds(lines, dir, gap as int, s as int);
                lemma_stack_run_bounds(lines, dir, gap as int, s + 1);
                lemma_walk_bounds(spread, free as int, count as int, s as int);
                lemma_walk_bounds(spread, free as int, count as int, s + 1);
                lemma_content_lead_is_lead(
                    self.options.axes_alignment,
                    free as int,
                    count as int,
                    s as int,
                );
            }
            let before = space_before(spread, free, count, s, assignable_free_space);
            cross_offset = cross_offset + before.0;
            offsets.push(cross_offset);
            let behind = space_behind(spread, free, count, s, before.1);
            cross_offset = cross_offset + behind.0 + self.main_axes[s].cross_axis_size(self) + gap;
            assignable_free_space = behind.1;
            s = s + 1;
        }
        offsets
    }
}

impl FlexboxLayout {
    /// Return the items of the main axis stacked at place `s`, each named by
    /// its place among the items of the flexbox, along with their absolute
    /// position, given where that axis starts along the cross axis.
    pub fn axis_windows(&self, s: usize, cross_offset: usize) -> (windows: Vec<(usize, Rect)>)
        requires
            self.wf(),
            s < self.main_axes@.len(),
            cross_offset == line_base(self.lines(), self.options, self.cross_extent(), s as int),
        ensures
            windows@.len() == self.lines()[s as int].len(),
            forall|k: int|
                0 <= k < windows@.len() ==> {
                    &&& (#[trigger] windows@[k]).0 == self.main_axes@[s as int].first + k
                    &&& is_place(windows@[k].1, self.lines(), self.options, self.size, s as int, k)
                    &&& windows@[k].1.bounded()
                },
    {
        let axis = &self.main_axes[s];
        let dir = self.options.direction;
        let local = axis.windows(self);
        let by = dir.place(0, cross_offset);
        let n = local.len();
        let ghost lines = self.lines();
        let ghost items = axis.items@;
        let ghost gap = self.options.cross_axis_gap as int;
        let ghost free = cross_free_space(lines, dir, gap, self.cross_extent());
        let mut windows: Vec<(usize, Rect)> = Vec::new();
        let mut k: usize = 0;
        proof {
            assert(lines[s as int] == items);
            lemma_stack_run_bounds(lines, dir, gap, s as int);
            crate::stack::lemma_content_lead_bounds(
                self.options.axes_alignment,
                free,
                lines.len() as int,
                s as int,
            );
        }
        while k < n
            invariant
                s < self.main_axes@.len(),
                self.wf(),
                dir == self.options.direction,
                lines == self.lines(),
                items == self.main_axes@[s as int].items@,
                lines[s as int] == items,
                n == local@.len(),
                n == items.len(),
                k <= n,
                by == dir.compose(0, cross_offset),
                cross_offset == line_base(lines, self.options, self.cross_extent(), s as int),
                cross_offset + crate::measure::cross_size(items, dir) < usize::MAX,
                forall|j: int|
                    0 <= j < n ==> {
                        &&& (#[trigger] local@[j]).0 == self.main_axes@[s as int].first + j
                        &&& is_place_in_line(local@[j].1, items, self.options, self.size, j)
                        &&& local@[j].1.bounded()
                    },
                windows@.len() == k,
                forall|j: int|
                    0 <= j < k ==> {
                        &&& (#[trigger] windows@[j]).0 == self.main_axes@[s as int].first + j
                        &&& is_place(windows@[j].1, lines, self.options, self.size, s as int, j)
                        &&& windows@[j].1.bounded()
                    },
            decreases n - k,
        {
            let combo = local[k];
            let mut rect = combo.1;
            proof {
                lemma_cross_size_covers(items, dir, k as int);
                lemma_cross_bounds(
                    self.options.item_alignment,
                    crate::measure::cross_size(items, dir),
                    dir.cross_of(items[k as int].required_size) as int,
                );
            }
            rect.shift(by);
            windows.push((combo.0, rect));
            k = k + 1;
        }
        windows
    }

    /// Return all the child items, each named by its place among the items
    /// of the flexbox, along with their absolute position. This makes drawing
    /// the flexbox very simple. The items come main axis by main axis, in the
    /// order in which the axes are stacked.
    pub fn windows(&self) -> (windows: Vec<(usize, Rect)>)
        requires
            self.wf(),
        ensures
            windows@.len() == count_items(self.lines()),
            forall|s: int, k: int|
                0 <= s < self.lines().len() && 0 <= k < self.lines()[s].len() ==> {
                    let window = windows@[#[trigger] flat_index(self.lines(), s, k)];
                    &&& 0 <= flat_index(self.lines(), s, k) < windows@.len()
                    &&& window.0 == self.main_axes@[s].first + k
                    &&& is_place(window.1, self.lines(), self.options, self.size, s, k)
                    &&& window.1.bounded()
                },
    {
        let count = self.main_axes.len();
        let offsets = self.line_offsets();
        let ghost lines = self.lines();
        let mut windows: Vec<(usize, Rect)> = Vec::new();
        let mut s: usize = 0;
        proof {
            assert(lines.take(0).len() == 0);
        }
        while s < count
            invariant
                count == self.main_axes@.len(),
                count == lines.len(),
                s <= count,
                self.wf(),
                lines == self.lines(),
                offsets@.len() == count,
                forall|t: int|
                    0 <= t < count ==> #[trigger] offsets@[t] == line_base(
                        lines,
                        self.options,
                        self.cross_extent(),
                        t,
                    ),
                windows@.len() == count_items(lines.take(s as int)),
                forall|t: int, k: int|
                    0 <= t < s && 0 <= k < lines[t].len() ==> {
                        let window = windows@[#[trigger] flat_index(lines, t, k)];
                        &&& 0 <= flat_index(lines, t, k) < windows@.len()
                        &&& window.0 == self.main_axes@[t].first + k
                        &&& is_place(window.1, lines, self.options, self.size, t, k)
                        &&& window.1.bounded()
                    },
            decreases count - s,
        {
            let mut line = self.axis_windows(s, offsets[s]);
            let ghost before = windows@;
            let ghost added = line@;
            proof {
                lemma_count_items_step(lines, s as int);
            }
            windows.append(&mut line);
            proof {
                assert(windows@ =~= before + added);
                assert forall|t: int, k: int|
                    0 <= t < s + 1 && 0 <= k < lines[t].len() implies {
                    let window = windows@[#[trigger] flat_index(lines, t, k)];
                    &&& 0 <= flat_index(lines, t, k) < windows@.len()
                    &&& window.0 == self.main_axes@[t].first + k
                    &&& is_place(window.1, lines, self.options, self.size, t, k)
                    &&& window.1.bounded()
                } by {
                    lemma_count_items_step(lines, t);
                    if t < s {
                        assert(windows@[flat_index(lines, t, k)] == before[flat_index(
                            lines,
                            t,
                            k,
                        )]);
                    } else {
                        assert(windows@[flat_index(lines, t, k)] == added[k]);
                    }
                }
            }
            s = s + 1;
        }
        proof {
            assert(lines.take(count as int) =~= lines);
        }
        windows
    }
}

} // verus!
