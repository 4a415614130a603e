//! Which items share a line.
//!
//! Items are taken in their order. A line takes items as long as it
//! accommodates the next one; the first item that it does not accommodate
//! starts the next line.

use vstd::prelude::*;
use crate::item::FlexItem;
use crate::measure::{lemma_runs_nonnegative, lemma_same_axis_measures_alike, used_space};
use crate::options::{FlexBoxOptions, FlexDirection, FlexWrap};

verus! {

/// Whether a line that holds `line` takes `item` as well, in a container
/// that is `extent` cells long along the main axis. Without wrapping every
/// item goes on the one line. An empty line takes any item. Otherwise the
/// line, a gap and the item must not be longer than the container.
pub open spec fn accommodates(
    line: Seq<FlexItem>,
    item: FlexItem,
    options: FlexBoxOptions,
    extent: int,
) -> bool {
    ||| options.wrap == FlexWrap::NoWrap
    ||| line.len() == 0
    ||| used_space(line, options.direction, options.main_axis_gap as int)
        + options.main_axis_gap + options.direction.main_of(item.required_size) <= extent
}

/// The place behind the last item of the line that starts at place `start`
/// and holds the items up to place `cur` already.
pub open spec fn line_end_from(
    items: Seq<FlexItem>,
    options: FlexBoxOptions,
    extent: int,
    start: int,
    cur: int,
) -> int
    decreases items.len() - cur,
{
    if cur >= items.len() {
        items.len() as int
    } else if accommodates(items.subrange(start, cur), items[cur], options, extent) {
        line_end_from(items, options, extent, start, cur + 1)
    } else {
        cur
    }
}

/// The place behind the last item of the line that starts at place `start`.
pub open spec fn line_end(
    items: Seq<FlexItem>,
    options: FlexBoxOptions,
    extent: int,
    start: int,
) -> int {
    line_end_from(items, options, extent, start, start)
}

/// The place of the first item of line `l`, the lines counted from zero in
/// the order of the items; the number of items, where there is no such line.
pub open spec fn line_start(
    items: Seq<FlexItem>,
    options: FlexBoxOptions,
    extent: int,
    l: int,
) -> int
    decreases l,
{
    if l <= 0 {
        0
    } else {
        let before = line_start(items, options, extent, l - 1);
        if before >= items.len() {
            items.len() as int
        } else {
            line_end(items, options, extent, before)
        }
    }
}

/// The number of lines that the items from place `start` on make.
pub open spec fn line_count_from(
    items: Seq<FlexItem>,
    options: FlexBoxOptions,
    extent: int,
    start: int,
) -> int
    decreases items.len() - start,
{
    let end = line_end(items, options, extent, start);
    if 0 <= start < end <= items.len() {
        1 + line_count_from(items, options, extent, end)
    } else {
        0
    }
}

/// The number of lines that the items make.
pub open spec fn line_count(items: Seq<FlexItem>, options: FlexBoxOptions, extent: int) -> int {
    line_count_from(items, options, extent, 0)
}

/// The items of line `l`.
pub open spec fn line_items(
    items: Seq<FlexItem>,
    options: FlexBoxOptions,
    extent: int,
    l: int,
) -> Seq<FlexItem> {
    items.subrange(
        line_start(items, options, extent, l),
        line_start(items, options, extent, l + 1),
    )
}

/// Which line, in the order of the items, is stacked at place `s` of `count`
/// lines: wrapping in reverse stacks the last line first.
pub open spec fn packing_index(wrap: FlexWrap, count: int, s: int) -> int {
    if wrap == FlexWrap::WrapReverse {
        count - 1 - s
    } else {
        s
    }
}

/// The lines that the items pack into, in the order in which they are
/// stacked across the container.
pub open spec fn stacked_lines(
    items: Seq<FlexItem>,
    options: FlexBoxOptions,
    extent: int,
) -> Seq<Seq<FlexItem>> {
    let count = line_count(items, options, extent);
    Seq::new(
        count as nat,
        |s: int| line_items(items, options, extent, packing_index(options.wrap, count, s)),
    )
}

/// The line, from line `l` on, that holds the item at place `i`: the first
/// whose successor starts behind that place.
pub open spec fn line_of_from(
    items: Seq<FlexItem>,
    options: FlexBoxOptions,
    extent: int,
    i: int,
    l: int,
) -> int
    decreases line_count(items, options, extent) - l,
{
    if l + 1 >= line_count(items, options, extent) || i < line_start(
        items,
        options,
        extent,
        l + 1,
    ) {
        l
    } else {
        line_of_from(items, options, extent, i, l + 1)
    }
}

/// The line that holds the item at place `i`.
pub open spec fn line_of(
    items: Seq<FlexItem>,
    options: FlexBoxOptions,
    extent: int,
    i: int,
) -> int {
    line_of_from(items, options, extent, i, 0)
}

/// The place of the counterpart of the item at place `i`: the item of the
/// same line that lies as far from the end of the line as the item at `i`
/// lies from its start.
pub open spec fn counterpart(
    items: Seq<FlexItem>,
    options: FlexBoxOptions,
    extent: int,
    i: int,
) -> int {
    let l = line_of(items, options, extent, i);
    line_start(items, options, extent, l) + line_start(items, options, extent, l + 1) - 1 - i
}

/// A line ends at or behind the place it has reached, and within the items.
pub proof fn lemma_line_end_from_bounds(
    items: Seq<FlexItem>,
    options: FlexBoxOptions,
    extent: int,
    start: int,
    cur: int,
)
    requires
        0 <= start <= cur <= items.len(),
    ensures
        cur <= line_end_from(items, options, extent, start, cur) <= items.len(),
    decreases items.len() - cur,
{
    if cur < items.len() && accommodates(items.subrange(start, cur), items[cur], options, extent) {
        lemma_line_end_from_bounds(items, options, extent, start, cur + 1);
    }
}

/// A line holds at least one item.
pub proof fn lemma_line_end_bounds(
    items: Seq<FlexItem>,
    options: FlexBoxOptions,
    extent: int,
    start: int,
)
    requires
        0 <= start < items.len(),
    ensures
        start < line_end(items, options, extent, start) <= items.len(),
{
    assert(items.subrange(start, start).len() == 0);
    lemma_line_end_from_bounds(items, options, extent, start, start + 1);
}

/// Lines start within the items, each behind the one before it as long as
/// items are left.
pub proof fn lemma_line_start_bounds(
    items: Seq<FlexItem>,
    options: FlexBoxOptions,
    extent: int,
    l: int,
)
    requires
        0 <= l,
    ensures
        0 <= line_start(items, options, extent, l) <= line_start(items, options, extent, l + 1)
            <= items.len(),
        line_start(items, options, extent, l) < items.len() ==> line_start(
            items,
            options,
            extent,
            l,
        ) < line_start(items, options, extent, l + 1),
        line_start(items, options, extent, l) < items.len() ==> l <= line_start(
            items,
            options,
            extent,
            l,
        ),
    decreases l,
{
    if l > 0 {
        lemma_line_start_bounds(items, options, extent, l - 1);
    }
    let here = line_start(items, options, extent, l);
    if here < items.len() {
        lemma_line_end_bounds(items, options, extent, here);
    }
}

/// The lines from line `l` on are those that the lines before them leave of
/// the count.
pub proof fn lemma_line_count_from_start(
    items: Seq<FlexItem>,
    options: FlexBoxOptions,
    extent: int,
    l: int,
)
    requires
        0 <= l <= line_count(items, options, extent),
    ensures
        line_count_from(items, options, extent, line_start(items, options, extent, l))
            == line_count(items, options, extent) - l,
    decreases l,
{
    if l > 0 {
        lemma_line_count_from_start(items, options, extent, l - 1);
        lemma_line_start_bounds(items, options, extent, l - 1);
    }
}

/// The lines cover the items: every line but the end starts within the
/// items, and the place behind the last line is the place behind the last
/// item.
pub proof fn lemma_lines_cover(
    items: Seq<FlexItem>,
    options: FlexBoxOptions,
    extent: int,
    l: int,
)
    requires
        0 <= l <= line_count(items, options, extent),
    ensures
        l < line_count(items, options, extent) ==> line_start(items, options, extent, l)
            < line_start(items, options, extent, l + 1) <= items.len(),
        l == line_count(items, options, extent) ==> line_start(items, options, extent, l)
            == items.len(),
        0 <= line_count(items, options, extent) <= items.len(),
{
    lemma_line_count_from_start(items, options, extent, l);
    lemma_line_start_bounds(items, options, extent, l);
    lemma_line_count_bounds(items, options, extent, 0);
    let start = line_start(items, options, extent, l);
    if start < items.len() {
        lemma_line_end_bounds(items, options, extent, start);
        lemma_line_count_bounds(items, options, extent, line_end(items, options, extent, start));
    }
}

/// No more lines than items.
pub proof fn lemma_line_count_bounds(
    items: Seq<FlexItem>,
    options: FlexBoxOptions,
    extent: int,
    start: int,
)
    requires
        0 <= start,
    ensures
        0 <= line_count_from(items, options, extent, start),
        start <= items.len() ==> line_count_from(items, options, extent, start) <= items.len()
            - start,
    decreases items.len() - start,
{
    let end = line_end(items, options, extent, start);
    if start < end <= items.len() {
        lemma_line_count_bounds(items, options, extent, end);
    }
}

/// Two places in one line: each line lies before the lines behind it.
pub proof fn lemma_line_starts_ordered(
    items: Seq<FlexItem>,
    options: FlexBoxOptions,
    extent: int,
    l: int,
    m: int,
)
    requires
        0 <= l <= m,
    ensures
        line_start(items, options, extent, l) <= line_start(items, options, extent, m),
    decreases m - l,
{
    if l < m {
        lemma_line_starts_ordered(items, options, extent, l, m - 1);
        lemma_line_start_bounds(items, options, extent, m - 1);
    }
}

/// Without wrapping, a line that has started takes every item that follows.
pub proof fn lemma_no_wrap_line_end(
    items: Seq<FlexItem>,
    options: FlexBoxOptions,
    extent: int,
    start: int,
    cur: int,
)
    requires
        options.wrap == FlexWrap::NoWrap,
        0 <= start <= cur <= items.len(),
    ensures
        line_end_from(items, options, extent, start, cur) == items.len(),
    decreases items.len() - cur,
{
    if cur < items.len() {
        lemma_no_wrap_line_end(items, options, extent, start, cur + 1);
    }
}

/// With wrapping, the items that a line has taken fit the container, unless
/// it is a single item; and the line has stopped at the end of the items or
/// before an item that it does not accommodate.
pub proof fn lemma_line_is_full(
    items: Seq<FlexItem>,
    options: FlexBoxOptions,
    extent: int,
    start: int,
    cur: int,
)
    requires
        options.wrap != FlexWrap::NoWrap,
        0 <= start < cur <= items.len(),
        cur - start == 1 || used_space(
            items.subrange(start, cur),
            options.direction,
            options.main_axis_gap as int,
        ) <= extent,
    ensures
        ({
            let end = line_end_from(items, options, extent, start, cur);
            &&& end - start == 1 || used_space(
                items.subrange(start, end),
                options.direction,
                options.main_axis_gap as int,
            ) <= extent
            &&& end == items.len() || !accommodates(
                items.subrange(start, end),
                items[end],
                options,
                extent,
            )
        }),
    decreases items.len() - cur,
{
    if cur < items.len() && accommodates(items.subrange(start, cur), items[cur], options, extent) {
        let line = items.subrange(start, cur);
        let longer = items.subrange(start, cur + 1);
        assert(longer.drop_last() =~= line);
        assert(longer.last() == items[cur]);
        lemma_runs_nonnegative(line, options.direction, options.main_axis_gap as int);
        lemma_line_is_full(items, options, extent, start, cur + 1);
    }
}

/// The search for the line of an item, begun at or before that line, finds
/// it.
pub proof fn lemma_line_of_from(
    items: Seq<FlexItem>,
    options: FlexBoxOptions,
    extent: int,
    i: int,
    l: int,
    from: int,
)
    requires
        0 <= from <= l < line_count(items, options, extent),
        line_start(items, options, extent, l) <= i < line_start(items, options, extent, l + 1),
    ensures
        line_of_from(items, options, extent, i, from) == l,
    decreases l - from,
{
    if from < l {
        lemma_line_starts_ordered(items, options, extent, from + 1, l);
        lemma_line_of_from(items, options, extent, i, l, from + 1);
    }
}

/// Every item lies on exactly one line: the line that `line_of` names holds
/// it, and no other line does.
pub proof fn lemma_line_of(items: Seq<FlexItem>, options: FlexBoxOptions, extent: int, i: int)
    requires
        0 <= i < items.len(),
    ensures
        0 <= line_of(items, options, extent, i) < line_count(items, options, extent),
        line_start(items, options, extent, line_of(items, options, extent, i)) <= i < line_start(
            items,
            options,
            extent,
            line_of(items, options, extent, i) + 1,
        ),
        forall|l: int|
            0 <= l < line_count(items, options, extent) && line_start(items, options, extent, l)
                <= i < #[trigger] line_start(items, options, extent, l + 1) ==> l == line_of(
                items,
                options,
                extent,
                i,
            ),
{
    lemma_line_end_bounds(items, options, extent, 0);
    lemma_line_count_bounds(items, options, extent, line_end(items, options, extent, 0));
    lemma_line_of_search(items, options, extent, i, 0);
    assert forall|l: int|
        0 <= l < line_count(items, options, extent) && line_start(items, options, extent, l) <= i
            < #[trigger] line_start(items, options, extent, l + 1) implies l == line_of(
        items,
        options,
        extent,
        i,
    ) by {
        lemma_line_of_from(items, options, extent, i, l, 0);
    }
}

proof fn lemma_line_of_search(
    items: Seq<FlexItem>,
    options: FlexBoxOptions,
    extent: int,
    i: int,
    l: int,
)
    requires
        0 <= l < line_count(items, options, extent),
        line_start(items, options, extent, l) <= i < items.len(),
    ensures
        l <= line_of_from(items, options, extent, i, l) < line_count(items, options, extent),
        line_start(items, options, extent, line_of_from(items, options, extent, i, l)) <= i
            < line_start(items, options, extent, line_of_from(items, options, extent, i, l) + 1),
    decreases line_count(items, options, extent) - l,
{
    let count = line_count(items, options, extent);
    if l + 1 >= count {
        lemma_lines_cover(items, options, extent, count);
    } else if i >= line_start(items, options, extent, l + 1) {
        lemma_line_of_search(items, options, extent, i, l + 1);
    }
}

/// Two directions along the same axis end every line at the same place, as
/// long as nothing else differs between the options.
pub proof fn lemma_same_axis_line_end(
    items: Seq<FlexItem>,
    options: FlexBoxOptions,
    other: FlexDirection,
    extent: int,
    start: int,
    cur: int,
)
    requires
        options.direction.is_row() == other.is_row(),
        0 <= start <= cur <= items.len(),
    ensures
        line_end_from(items, options, extent, start, cur) == line_end_from(
            items,
            FlexBoxOptions { direction: other, ..options },
            extent,
            start,
            cur,
        ),
    decreases items.len() - cur,
{
    if cur < items.len() {
        lemma_same_axis_measures_alike(
            items.subrange(start, cur),
            options.direction,
            other,
            options.main_axis_gap as int,
        );
        lemma_same_axis_line_end(items, options, other, extent, start, cur + 1);
    }
}

/// Two directions along the same axis start every line at the same place.
pub proof fn lemma_same_axis_line_start(
    items: Seq<FlexItem>,
    options: FlexBoxOptions,
    other: FlexDirection,
    extent: int,
    l: int,
)
    requires
        options.direction.is_row() == other.is_row(),
        0 <= l,
    ensures
        line_start(items, options, extent, l) == line_start(
            items,
            FlexBoxOptions { direction: other, ..options },
            extent,
            l,
        ),
    decreases l,
{
    if l > 0 {
        lemma_same_axis_line_start(items, options, other, extent, l - 1);
        lemma_line_start_bounds(items, options, extent, l - 1);
        let before = line_start(items, options, extent, l - 1);
        if before < items.len() {
            lemma_same_axis_line_end(items, options, other, extent, before, before);
        }
    }
}

/// Two directions along the same axis make the same number of lines.
pub proof fn lemma_same_axis_line_count(
    items: Seq<FlexItem>,
    options: FlexBoxOptions,
    other: FlexDirection,
    extent: int,
    start: int,
)
    requires
        options.direction.is_row() == other.is_row(),
        0 <= start,
    ensures
        line_count_from(items, options, extent, start) == line_count_from(
            items,
            FlexBoxOptions { direction: other, ..options },
            extent,
            start,
        ),
    decreases items.len() - start,
{
    if start < items.len() {
        lemma_same_axis_line_end(items, options, other, extent, start, start);
        let end = line_end(items, options, extent, start);
        if start < end <= items.len() {
            lemma_same_axis_line_count(items, options, other, extent, end);
        }
    }
}

/// Two directions along the same axis find every item on the same line.
pub proof fn lemma_same_axis_line_of(
    items: Seq<FlexItem>,
    options: FlexBoxOptions,
    other: FlexDirection,
    extent: int,
    i: int,
    l: int,
)
    requires
        options.direction.is_row() == other.is_row(),
        0 <= l,
    ensures
        line_of_from(items, options, extent, i, l) == line_of_from(
            items,
            FlexBoxOptions { direction: other, ..options },
            extent,
            i,
            l,
        ),
    decreases line_count(items, options, extent) - l,
{
    lemma_same_axis_line_count(items, options, other, extent, 0);
    lemma_same_axis_line_start(items, options, other, extent, l + 1);
    if !(l + 1 >= line_count(items, options, extent) || i < line_start(
        items,
        options,
        extent,
        l + 1,
    )) {
        lemma_same_axis_line_of(items, options, other, extent, i, l + 1);
    }
}

/// Two directions along the same axis pack the items into the same lines
/// and stack them in the same order.
pub proof fn lemma_same_axis_packs_alike(
    items: Seq<FlexItem>,
    options: FlexBoxOptions,
    other: FlexDirection,
    extent: int,
)
    requires
        options.direction.is_row() == other.is_row(),
    ensures
        line_count(items, options, extent) == line_count(
            items,
            FlexBoxOptions { direction: other, ..options },
            extent,
        ),
        stacked_lines(items, options, extent) == stacked_lines(
            items,
            FlexBoxOptions { direction: other, ..options },
            extent,
        ),
{
    let twin = FlexBoxOptions { direction: other, ..options };
    let count = line_count(items, options, extent);
    let lines = stacked_lines(items, options, extent);
    let twin_lines = stacked_lines(items, twin, extent);
    lemma_same_axis_line_count(items, options, other, extent, 0);
    lemma_line_count_bounds(items, options, extent, 0);
    assert(lines.len() == twin_lines.len());
    assert forall|s: int| 0 <= s < lines.len() implies #[trigger] lines[s] == twin_lines[s] by {
        let l = packing_index(options.wrap, count, s);
        lemma_same_axis_line_start(items, options, other, extent, l);
        lemma_same_axis_line_start(items, options, other, extent, l + 1);
    }
    assert(lines =~= twin_lines);
}

} // verus!
