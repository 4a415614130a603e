//! What holds of every layout.

use vstd::prelude::*;
use crate::align::{
    cross_length, cross_start, is_item_place, is_place, is_place_in_line, lemma_cross_bounds,
    lemma_cross_size_covers,
};
use crate::distribute::{
    grow_extra, grow_given, justify_lead, main_end, lemma_grow_given_after_last_grower, lemma_grow_given_bounds,
    lemma_grow_given_in_proportion, lemma_main_bounds, lemma_main_order, lemma_main_start_step,
    lemma_placed_bounds, lemma_same_axis_distributes_alike, main_length, main_start,
    placed_start,
};
use crate::geometry::{Rect, XY};
use crate::item::FlexItem;
use crate::measure::{
    cross_size, free_space, grow_total, lemma_grow_total_step, lemma_main_run_step,
    lemma_runs_nonnegative, lemma_same_axis_measures_alike, main_run, used_space,
};
use crate::options::{AlignItems, FlexBoxOptions, FlexWrap, JustifyContent};
use crate::pack::{
    accommodates, counterpart, lemma_line_count_bounds, lemma_line_end_bounds, lemma_line_is_full,
    lemma_line_of, lemma_line_start_bounds, lemma_lines_cover, lemma_no_wrap_line_end,
    lemma_same_axis_line_of, lemma_same_axis_line_start, lemma_same_axis_packs_alike,
    line_count, line_end, line_items, line_of, line_start, packing_index, stacked_lines,
};
use crate::stack::{
    cross_free_space, lemma_content_lead_bounds, lemma_content_lead_monotone,
    lemma_same_axis_stacks_alike, lemma_stack_run_bounds, lemma_stack_run_step, line_base,
    stack_used,
};

verus! {

/// Every item lies on exactly one line, at one place of that line: the lines
/// follow each other without a gap from the first item to the last, and each
/// holds at least one item.
pub proof fn law_lines_partition_items(
    content: Seq<FlexItem>,
    options: FlexBoxOptions,
    extent: int,
    i: int,
)
    requires
        0 <= i < content.len(),
    ensures
        ({
            let l = line_of(content, options, extent, i);
            &&& 0 <= l < line_count(content, options, extent)
            &&& line_start(content, options, extent, l) <= i < line_start(
                content,
                options,
                extent,
                l + 1,
            )
            &&& forall|m: int|
                0 <= m < line_count(content, options, extent) && line_start(
                    content,
                    options,
                    extent,
                    m,
                ) <= i < #[trigger] line_start(content, options, extent, m + 1) ==> m == l
        }),
        line_start(content, options, extent, 0) == 0,
        line_start(content, options, extent, line_count(content, options, extent))
            == content.len(),
{
    lemma_line_of(content, options, extent, i);
    lemma_line_count_bounds(content, options, extent, 0);
    lemma_lines_cover(content, options, extent, line_count(content, options, extent));
}

/// No item is placed at a negative coordinate, and none is given a negative
/// length, along either axis.
pub proof fn law_places_are_nonnegative(
    content: Seq<FlexItem>,
    options: FlexBoxOptions,
    container: XY,
    i: int,
)
    requires
        0 <= i < content.len(),
    ensures
        ({
            let dir = options.direction;
            let extent = dir.main_of(container) as int;
            let l = line_of(content, options, extent, i);
            let lines = stacked_lines(content, options, extent);
            let s = packing_index(options.wrap, line_count(content, options, extent), l);
            let k = i - line_start(content, options, extent, l);
            let line = cross_size(lines[s], dir);
            let own = dir.cross_of(lines[s][k].required_size) as int;
            &&& 0 <= placed_start(lines[s], options, extent, k)
            &&& 0 <= main_length(lines[s], options, extent, k)
            &&& 0 <= line_base(lines, options, dir.cross_of(container) as int, s) + cross_start(
                options.item_alignment,
                line,
                own,
            )
            &&& 0 <= cross_length(options.item_alignment, line, own)
        }),
{
    let dir = options.direction;
    let extent = dir.main_of(container) as int;
    let count = line_count(content, options, extent);
    let l = line_of(content, options, extent, i);
    let lines = stacked_lines(content, options, extent);
    let s = packing_index(options.wrap, count, l);
    let k = i - line_start(content, options, extent, l);
    let gap = options.cross_axis_gap as int;
    lemma_line_of(content, options, extent, i);
    lemma_lines_cover(content, options, extent, l);
    lemma_line_start_bounds(content, options, extent, l);
    assert(0 <= s < count);
    assert(packing_index(options.wrap, count, s) == l);
    assert(lines[s] == line_items(content, options, extent, l));
    assert(0 <= k < lines[s].len());
    lemma_placed_bounds(lines[s], options, extent, k);
    lemma_main_bounds(lines[s], options, extent, k);
    lemma_cross_size_covers(lines[s], dir, k);
    lemma_cross_bounds(
        options.item_alignment,
        cross_size(lines[s], dir),
        dir.cross_of(lines[s][k].required_size) as int,
    );
    lemma_stack_run_bounds(lines, dir, gap, s);
    lemma_content_lead_bounds(
        options.axes_alignment,
        cross_free_space(lines, dir, gap, dir.cross_of(container) as int),
        lines.len() as int,
        s,
    );
}

/// In grow mode the items of a line are never given more than the line's
/// free space, and where an item asks for growth, they are given all of it.
pub proof fn law_grow_hands_out_free_space(items: Seq<FlexItem>, free: int)
    requires
        0 <= free,
    ensures
        0 <= grow_given(items, free, items.len() as int) <= free,
        grow_total(items) > 0 ==> grow_given(items, free, items.len() as int) == free,
{
    lemma_grow_given_bounds(items, free, items.len() as int);
    if grow_total(items) > 0 {
        assert(items.take(items.len() as int) =~= items);
        lemma_grow_given_after_last_grower(items, free, items.len() as int);
    }
}

/// On a line that holds one item, `space-between` places the item where
/// `flex-start` places it.
pub proof fn law_space_between_alone_is_flex_start(
    rect: Rect,
    items: Seq<FlexItem>,
    options: FlexBoxOptions,
    container: XY,
)
    requires
        items.len() == 1,
    ensures
        is_place_in_line(
            rect,
            items,
            FlexBoxOptions { justification: JustifyContent::SpaceBetween, ..options },
            container,
            0,
        ) == is_place_in_line(
            rect,
            items,
            FlexBoxOptions { justification: JustifyContent::FlexStart, ..options },
            container,
            0,
        ),
{
}

/// A flexbox of one item lays it out with `space-between` as it does with
/// `flex-start`.
pub proof fn law_space_between_single_item(
    rect: Rect,
    content: Seq<FlexItem>,
    options: FlexBoxOptions,
    container: XY,
)
    requires
        content.len() == 1,
    ensures
        is_item_place(
            rect,
            content,
            FlexBoxOptions { justification: JustifyContent::SpaceBetween, ..options },
            container,
            0,
        ) == is_item_place(
            rect,
            content,
            FlexBoxOptions { justification: JustifyContent::FlexStart, ..options },
            container,
            0,
        ),
{
    let between = FlexBoxOptions { justification: JustifyContent::SpaceBetween, ..options };
    let start = FlexBoxOptions { justification: JustifyContent::FlexStart, ..options };
    let extent = options.direction.main_of(container) as int;
    lemma_single_item_lines(content, between, extent);
    lemma_single_item_lines(content, start, extent);
    law_space_between_alone_is_flex_start(rect, content, options, container);
}

/// One item makes one line, which holds it.
proof fn lemma_single_item_lines(content: Seq<FlexItem>, options: FlexBoxOptions, extent: int)
    requires
        content.len() == 1,
    ensures
        line_count(content, options, extent) == 1,
        line_of(content, options, extent, 0) == 0,
        line_start(content, options, extent, 0) == 0,
        stacked_lines(content, options, extent) =~= seq![content],
{
    lemma_line_end_bounds(content, options, extent, 0);
    lemma_line_count_bounds(content, options, extent, 1);
    assert(line_start(content, options, extent, 0) == 0);
    assert(line_start(content, options, extent, 1) == 1);
    assert(line_items(content, options, extent, 0) =~= content);
    assert(packing_index(options.wrap, 1, 0) == 0);
}

/// Without wrapping, items make exactly one line, however many they are and
/// whatever they measure.
pub proof fn law_no_wrap_is_one_line(content: Seq<FlexItem>, options: FlexBoxOptions, extent: int)
    requires
        options.wrap == FlexWrap::NoWrap,
        content.len() > 0,
    ensures
        line_count(content, options, extent) == 1,
        line_items(content, options, extent, 0) == content,
{
    lemma_no_wrap_line_end(content, options, extent, 0, 0);
    lemma_line_count_bounds(content, options, extent, content.len() as int);
    assert(line_start(content, options, extent, 0) == 0);
    assert(line_start(content, options, extent, 1) == content.len());
    assert(line_items(content, options, extent, 0) =~= content);
}

/// `align-items: stretch` makes every item as long across as its line.
pub proof fn law_stretch_fills_the_line(
    rect: Rect,
    lines: Seq<Seq<FlexItem>>,
    options: FlexBoxOptions,
    container: XY,
    s: int,
    k: int,
)
    requires
        options.item_alignment == AlignItems::Stretch,
        is_place(rect, lines, options, container, s, k),
    ensures
        options.direction.cross_of(rect.size) == cross_size(lines[s], options.direction),
        options.direction.cross_of(rect.top_left) == line_base(
            lines,
            options,
            options.direction.cross_of(container) as int,
            s,
        ),
{
}

/// `align-items: flex-start` leaves every item as long across as it
/// requires, at the start of its line.
pub proof fn law_flex_start_keeps_the_size(
    rect: Rect,
    lines: Seq<Seq<FlexItem>>,
    options: FlexBoxOptions,
    container: XY,
    s: int,
    k: int,
)
    requires
        options.item_alignment == AlignItems::FlexStart,
        is_place(rect, lines, options, container, s, k),
    ensures
        options.direction.cross_of(rect.size) == options.direction.cross_of(
            lines[s][k].required_size,
        ),
        options.direction.cross_of(rect.top_left) == line_base(
            lines,
            options,
            options.direction.cross_of(container) as int,
            s,
        ),
{
}

/// With wrapping, a line is as long as it can be: its items, with the gaps
/// between them, are not longer than the container, unless it is a single
/// item; and the item behind the line, if there is one, would make it longer
/// than the container.
pub proof fn law_wrapped_lines_are_full(
    content: Seq<FlexItem>,
    options: FlexBoxOptions,
    extent: int,
    l: int,
)
    requires
        options.wrap != FlexWrap::NoWrap,
        0 <= l < line_count(content, options, extent),
    ensures
        ({
            let start = line_start(content, options, extent, l);
            let end = line_start(content, options, extent, l + 1);
            let line = line_items(content, options, extent, l);
            &&& 0 <= start < end <= content.len()
            &&& end - start == 1 || used_space(
                line,
                options.direction,
                options.main_axis_gap as int,
            ) <= extent
            &&& end < content.len() ==> used_space(
                line,
                options.direction,
                options.main_axis_gap as int,
            ) + options.main_axis_gap + options.direction.main_of(content[end].required_size)
                > extent
        }),
{
    let start = line_start(content, options, extent, l);
    lemma_lines_cover(content, options, extent, l);
    lemma_line_start_bounds(content, options, extent, l);
    lemma_line_end_bounds(content, options, extent, start);
    assert(content.subrange(start, start).len() == 0);
    assert(line_end(content, options, extent, start) == crate::pack::line_end_from(
        content,
        options,
        extent,
        start,
        start + 1,
    ));
    lemma_line_is_full(content, options, extent, start, start + 1);
}

/// Forward, the items of a line do not overlap: of two items, the earlier
/// one ends before the later one starts, with at least the gap between them.
/// In a reversed direction the starts come in the opposite order, and
/// between two starts lie at least the length of the item that would start
/// at the first of them forward, and the gap.
pub proof fn law_items_keep_their_distance(
    items: Seq<FlexItem>,
    options: FlexBoxOptions,
    extent: int,
    i: int,
    j: int,
)
    requires
        0 <= extent,
        0 <= i < j < items.len(),
    ensures
        !options.direction.is_reverse() ==> placed_start(items, options, extent, i) + main_length(
            items,
            options,
            extent,
            i,
        ) + options.main_axis_gap <= placed_start(items, options, extent, j),
        options.direction.is_reverse() ==> placed_start(items, options, extent, j) + main_length(
            items,
            options,
            extent,
            items.len() - 1 - j,
        ) + options.main_axis_gap <= placed_start(items, options, extent, i),
{
    let n = items.len() as int;
    lemma_main_start_step(items, options, extent, i);
    lemma_main_order(items, options, extent, i + 1, j);
    lemma_main_start_step(items, options, extent, n - 1 - j);
    lemma_main_order(items, options, extent, n - j, n - 1 - i);
}

/// The lines do not overlap: a line ends before the next line in the stack
/// starts, with at least the gap between them.
pub proof fn law_lines_do_not_overlap(
    lines: Seq<Seq<FlexItem>>,
    options: FlexBoxOptions,
    extent: int,
    s: int,
    t: int,
)
    requires
        0 <= s < t < lines.len(),
    ensures
        line_base(lines, options, extent, s) + cross_size(lines[s], options.direction)
            + options.cross_axis_gap <= line_base(lines, options, extent, t),
{
    let dir = options.direction;
    let gap = options.cross_axis_gap as int;
    lemma_stack_run_step(lines, dir, gap, s);
    lemma_stack_run_bounds(lines.take(t), dir, gap, s + 1);
    assert(lines.take(t).take(s + 1) =~= lines.take(s + 1));
    lemma_stack_run_bounds(lines, dir, gap, lines.len() as int);
    lemma_content_lead_monotone(
        options.axes_alignment,
        cross_free_space(lines, dir, gap, extent),
        lines.len() as int,
        s,
        t,
    );
}

/// A line that is not longer than the container lies within it. Forward,
/// none of its items starts before the container or ends behind it. In a
/// reversed direction every item starts within the container, where room was
/// kept for the item that would start there forward.
pub proof fn law_fitting_line_stays_within_container(
    items: Seq<FlexItem>,
    options: FlexBoxOptions,
    extent: int,
    i: int,
)
    requires
        used_space(items, options.direction, options.main_axis_gap as int) <= extent,
        0 <= i < items.len(),
    ensures
        0 <= placed_start(items, options, extent, i) <= extent,
        !options.direction.is_reverse() ==> placed_start(items, options, extent, i) + main_length(
            items,
            options,
            extent,
            i,
        ) <= extent,
        options.direction.is_reverse() ==> placed_start(items, options, extent, i) + main_length(
            items,
            options,
            extent,
            items.len() - 1 - i,
        ) <= extent,
{
    lemma_runs_nonnegative(items, options.direction, options.main_axis_gap as int);
    lemma_placed_bounds(items, options, extent, i);
    lemma_main_bounds(items, options, extent, i);
    lemma_main_bounds(items, options, extent, items.len() - 1 - i);
}

/// A stack of lines that is not longer than the container lies within it:
/// none of its lines starts before the container or ends behind it.
pub proof fn law_fitting_stack_stays_within_container(
    lines: Seq<Seq<FlexItem>>,
    options: FlexBoxOptions,
    extent: int,
    s: int,
)
    requires
        stack_used(lines, options.direction, options.cross_axis_gap as int) <= extent,
        0 <= s < lines.len(),
    ensures
        0 <= line_base(lines, options, extent, s),
        line_base(lines, options, extent, s) + cross_size(lines[s], options.direction) <= extent,
{
    let dir = options.direction;
    let gap = options.cross_axis_gap as int;
    lemma_stack_run_bounds(lines, dir, gap, s);
    lemma_content_lead_bounds(
        options.axes_alignment,
        cross_free_space(lines, dir, gap, extent),
        lines.len() as int,
        s,
    );
}

/// Where the free space of a line is a whole multiple of the sum of its grow
/// factors, every item is given that multiple of its grow factor.
pub proof fn law_grow_shares_are_proportional(
    items: Seq<FlexItem>,
    free: int,
    unit: int,
    i: int,
)
    requires
        0 <= unit,
        free == unit * grow_total(items),
        0 <= i < items.len(),
    ensures
        grow_extra(items, free, i) == unit * items[i].flex_grow,
{
    let before = grow_total(items.take(i));
    let grow = items[i].flex_grow as int;
    lemma_grow_given_in_proportion(items, free, unit, i);
    lemma_grow_given_in_proportion(items, free, unit, i + 1);
    lemma_grow_total_step(items, i);
    assert(unit * (before + grow) - unit * before == unit * grow) by (nonlinear_arith);
}

/// A reversed direction mirrors the starts within a line and nothing else:
/// every item starts where its counterpart from the other end of the line
/// starts in the forward direction, the last item where the first one does
/// and the first where the last one does; it is as long as in the forward
/// direction; and the line is as long across.
pub proof fn law_reverse_mirrors_the_starts(
    items: Seq<FlexItem>,
    options: FlexBoxOptions,
    extent: int,
    i: int,
)
    requires
        options.direction.is_reverse(),
        0 <= i < items.len(),
    ensures
        ({
            let forward = FlexBoxOptions { direction: options.direction.forward(), ..options };
            &&& placed_start(items, options, extent, i) == placed_start(
                items,
                forward,
                extent,
                items.len() - 1 - i,
            )
            &&& placed_start(items, options, extent, items.len() - 1) == main_start(
                items,
                forward,
                extent,
                0,
            )
            &&& placed_start(items, options, extent, 0) == main_start(
                items,
                forward,
                extent,
                items.len() - 1,
            )
            &&& main_length(items, options, extent, i) == main_length(items, forward, extent, i)
            &&& cross_size(items, options.direction) == cross_size(items, forward.direction)
        }),
{
    let n = items.len() as int;
    let forward = options.direction.forward();
    lemma_same_axis_distributes_alike(items, options, forward, extent, i);
    lemma_same_axis_distributes_alike(items, options, forward, extent, n - 1 - i);
    lemma_same_axis_distributes_alike(items, options, forward, extent, 0);
    lemma_same_axis_distributes_alike(items, options, forward, extent, n - 1);
    lemma_same_axis_measures_alike(items, options.direction, forward, 0);
}

/// The places of a reversed direction, held against those of the forward
/// direction on the same lines: an item starts along the main axis where its
/// counterpart from the other end of its line starts forward, and has the
/// size and the start across that it has forward itself.
pub proof fn law_reverse_differs_in_the_starts_only(
    reversed: Rect,
    forward: Rect,
    counterpart: Rect,
    lines: Seq<Seq<FlexItem>>,
    options: FlexBoxOptions,
    container: XY,
    s: int,
    k: int,
)
    requires
        options.direction.is_reverse(),
        0 <= s < lines.len(),
        0 <= k < lines[s].len(),
        is_place(reversed, lines, options, container, s, k),
        is_place(
            forward,
            lines,
            FlexBoxOptions { direction: options.direction.forward(), ..options },
            container,
            s,
            k,
        ),
        is_place(
            counterpart,
            lines,
            FlexBoxOptions { direction: options.direction.forward(), ..options },
            container,
            s,
            lines[s].len() - 1 - k,
        ),
    ensures
        options.direction.main_of(reversed.top_left) == options.direction.main_of(
            counterpart.top_left,
        ),
        options.direction.cross_of(reversed.top_left) == options.direction.cross_of(
            forward.top_left,
        ),
        reversed.size == forward.size,
{
    let dir = options.direction;
    let straight = dir.forward();
    let extent = dir.main_of(container) as int;
    let gap = options.cross_axis_gap as int;
    law_reverse_mirrors_the_starts(lines[s], options, extent, k);
    lemma_same_axis_stacks_alike(lines, dir, straight, gap);
    lemma_same_axis_stacks_alike(lines.take(s), dir, straight, gap);
    lemma_same_axis_measures_alike(lines[s], dir, straight, 0);
}

/// A layout in a reversed direction, held against the layout of the same
/// items in the forward direction: the lines are the same; an item starts
/// along the main axis where its counterpart from the other end of its line
/// starts forward; and it has the size and the start across that it has
/// forward itself.
pub proof fn law_reversed_layout_mirrors_the_forward_one(
    reversed: Rect,
    forward: Rect,
    mirrored: Rect,
    content: Seq<FlexItem>,
    options: FlexBoxOptions,
    container: XY,
    i: int,
)
    requires
        options.direction.is_reverse(),
        0 <= i < content.len(),
        is_item_place(reversed, content, options, container, i),
        is_item_place(
            forward,
            content,
            FlexBoxOptions { direction: options.direction.forward(), ..options },
            container,
            i,
        ),
        is_item_place(
            mirrored,
            content,
            FlexBoxOptions { direction: options.direction.forward(), ..options },
            container,
            counterpart(content, options, options.direction.main_of(container) as int, i),
        ),
    ensures
        options.direction.main_of(reversed.top_left) == options.direction.main_of(
            mirrored.top_left,
        ),
        options.direction.cross_of(reversed.top_left) == options.direction.cross_of(
            forward.top_left,
        ),
        reversed.size == forward.size,
        line_count(content, options, options.direction.main_of(container) as int) == line_count(
            content,
            FlexBoxOptions { direction: options.direction.forward(), ..options },
            options.direction.main_of(container) as int,
        ),
{
    let dir = options.direction;
    let straight = FlexBoxOptions { direction: dir.forward(), ..options };
    let extent = dir.main_of(container) as int;
    let count = line_count(content, options, extent);
    let l = line_of(content, options, extent, i);
    let other = counterpart(content, options, extent, i);
    let lines = stacked_lines(content, options, extent);
    let s = packing_index(options.wrap, count, l);
    lemma_line_of(content, options, extent, i);
    lemma_line_start_bounds(content, options, extent, l);
    lemma_same_axis_packs_alike(content, options, dir.forward(), extent);
    lemma_same_axis_line_of(content, options, dir.forward(), extent, i, 0);
    lemma_same_axis_line_start(content, options, dir.forward(), extent, l);
    lemma_same_axis_line_start(content, options, dir.forward(), extent, l + 1);
    lemma_line_of(content, straight, extent, other);
    assert(line_of(content, straight, extent, other) == l);
    assert(lines[s] == line_items(content, options, extent, l));
    law_reverse_differs_in_the_starts_only(
        reversed,
        forward,
        mirrored,
        lines,
        options,
        container,
        s,
        i - line_start(content, options, extent, l),
    );
}

/// A line whose items ask for growth is packed from its start: forward, the
/// first item starts at the start of the line, every other item exactly one
/// gap behind the end of the item before it, and the lengths of the items are
/// what they require and, together, the free space of the line.
pub proof fn law_grow_line_is_packed(
    items: Seq<FlexItem>,
    options: FlexBoxOptions,
    extent: int,
    i: int,
)
    requires
        0 <= extent,
        grow_total(items) > 0,
        0 <= i < items.len(),
    ensures
        main_start(items, options, extent, 0) == 0,
        i + 1 < items.len() ==> main_end(items, options, extent, i) + options.main_axis_gap
            == main_start(items, options, extent, i + 1),
        main_length(items, options, extent, i) == options.direction.main_of(
            items[i].required_size,
        ) + grow_extra(
            items,
            free_space(items, options.direction, options.main_axis_gap as int, extent),
            i,
        ),
        main_end(items, options, extent, items.len() - 1) + options.main_axis_gap == main_run(
            items,
            options.direction,
            options.main_axis_gap as int,
        ) + free_space(items, options.direction, options.main_axis_gap as int, extent),
{
    let n = items.len() as int;
    let gap = options.main_axis_gap as int;
    let free = free_space(items, options.direction, gap, extent);
    assert(items.take(0).len() == 0);
    if i + 1 < n {
        lemma_main_start_step(items, options, extent, i);
    }
    lemma_main_run_step(items, options.direction, gap, n - 1);
    assert(items.take(n) =~= items);
    law_grow_hands_out_free_space(items, free);
}

/// A line without an item that asks for growth starts, forward, with the
/// free space that `justify-content` places before the first item: none for
/// `flex-start` and `space-between`, all of it for `flex-end`, half of it
/// for `center`, and the first share for `space-around` and `space-evenly`.
/// Every item is as long as it requires, and starts behind the end of the
/// item before it, at least one gap apart.
pub proof fn law_justify_line_is_spread(
    items: Seq<FlexItem>,
    options: FlexBoxOptions,
    extent: int,
    i: int,
)
    requires
        0 <= extent,
        grow_total(items) <= 0,
        0 <= i < items.len(),
    ensures
        main_start(items, options, extent, 0) == justify_lead(
            options.justification,
            free_space(items, options.direction, options.main_axis_gap as int, extent),
            items.len() as int,
            0,
        ),
        main_length(items, options, extent, i) == options.direction.main_of(
            items[i].required_size,
        ),
        i + 1 < items.len() ==> main_end(items, options, extent, i) + options.main_axis_gap
            <= main_start(items, options, extent, i + 1),
{
    assert(items.take(0).len() == 0);
    if i + 1 < items.len() {
        lemma_main_start_step(items, options, extent, i);
    }
}

/// With wrapping, a line that holds an item and is not longer than the
/// container takes another item if and only if the item and a gap are not
/// longer than the free space of the line.
pub proof fn law_line_takes_what_its_free_space_holds(
    line: Seq<FlexItem>,
    item: FlexItem,
    options: FlexBoxOptions,
    extent: int,
)
    requires
        options.wrap != FlexWrap::NoWrap,
        line.len() > 0,
        used_space(line, options.direction, options.main_axis_gap as int) <= extent,
    ensures
        accommodates(line, item, options, extent) <==> options.direction.main_of(
            item.required_size,
        ) + options.main_axis_gap <= free_space(
            line,
            options.direction,
            options.main_axis_gap as int,
            extent,
        ),
{
}

} // verus!
