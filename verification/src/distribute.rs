//! Where the items of one line start along the main axis, and how long they
//! are.
//!
//! A line whose items ask for growth gives its free space to them, item by
//! item: each gets of what is still left the part that its grow factor is of
//! the grow factors still to come. A line without such items places its free
//! space around the items as `justify-content` says.

use vstd::prelude::*;
use crate::item::FlexItem;
use crate::measure::{
    free_space, grow_total, lemma_grow_total_concat, lemma_grow_total_step, lemma_main_run_step,
    lemma_runs_nonnegative, main_reach, main_run,
};
use crate::options::{FlexBoxOptions, FlexDirection, JustifyContent};
use crate::share::{lemma_share_at_bounds, lemma_shares_given_bounds, shares_given};

verus! {

/// The free space that lies before item `i` of `count` items on a line that
/// has `free` cells to place.
pub open spec fn justify_lead(justify: JustifyContent, free: int, count: int, i: int) -> int {
    match justify {
        JustifyContent::FlexStart => 0,
        JustifyContent::FlexEnd => free,
        JustifyContent::Center => free / 2,
        JustifyContent::SpaceBetween => shares_given(free, count - 1, i),
        JustifyContent::SpaceAround => shares_given(free, 2 * count, 2 * i + 1),
        JustifyContent::SpaceEvenly => shares_given(free, count + 1, i + 1),
    }
}

/// The part of `left` cells that goes to an item with grow factor `grow`
/// while grow factors of `grow_left` are still to be served, this one
/// included.
pub open spec fn grow_portion(left: int, grow: int, grow_left: int) -> int {
    if grow_left > 0 {
        left * grow / grow_left
    } else {
        0
    }
}

/// The cells that the first `i` items of a line have been given of its `free`
/// cells in grow mode.
pub open spec fn grow_given(items: Seq<FlexItem>, free: int, i: int) -> int
    decreases i,
{
    if i <= 0 {
        0
    } else {
        let before = grow_given(items, free, i - 1);
        before + grow_portion(
            free - before,
            items[i - 1].flex_grow as int,
            grow_total(items) - grow_total(items.take(i - 1)),
        )
    }
}

/// The cells that item `i` of a line is given of its `free` cells in grow
/// mode.
pub open spec fn grow_extra(items: Seq<FlexItem>, free: int, i: int) -> int {
    grow_given(items, free, i + 1) - grow_given(items, free, i)
}

/// Where item `i` of a line starts along the main axis, counted from the
/// start of the line and in the order of the items.
pub open spec fn main_start(
    items: Seq<FlexItem>,
    options: FlexBoxOptions,
    extent: int,
    i: int,
) -> int {
    let gap = options.main_axis_gap as int;
    let free = free_space(items, options.direction, gap, extent);
    main_run(items.take(i), options.direction, gap) + if grow_total(items) > 0 {
        grow_given(items, free, i)
    } else {
        justify_lead(options.justification, free, items.len() as int, i)
    }
}

/// How long item `i` of a line is along the main axis.
pub open spec fn main_length(
    items: Seq<FlexItem>,
    options: FlexBoxOptions,
    extent: int,
    i: int,
) -> int {
    let gap = options.main_axis_gap as int;
    let free = free_space(items, options.direction, gap, extent);
    options.direction.main_of(items[i].required_size) + if grow_total(items) > 0 {
        grow_extra(items, free, i)
    } else {
        0
    }
}

/// Where item `i` of a line ends along the main axis.
pub open spec fn main_end(
    items: Seq<FlexItem>,
    options: FlexBoxOptions,
    extent: int,
    i: int,
) -> int {
    main_start(items, options, extent, i) + main_length(items, options, extent, i)
}

/// Where item `i` of a line is placed along the main axis. A reversed
/// direction mirrors the starts within the line: the last item starts where
/// the first one would start forward, the first where the last one would,
/// and so each item where its counterpart from the other end would. The
/// lengths stay with the items.
pub open spec fn placed_start(
    items: Seq<FlexItem>,
    options: FlexBoxOptions,
    extent: int,
    i: int,
) -> int {
    if options.direction.is_reverse() {
        main_start(items, options, extent, items.len() - 1 - i)
    } else {
        main_start(items, options, extent, i)
    }
}

/// Later shares lie behind earlier ones.
pub proof fn lemma_shares_given_monotone(total: int, parts: int, j: int, k: int)
    requires
        0 <= total,
        0 < parts,
        0 <= j <= k <= parts,
    ensures
        shares_given(total, parts, j) <= shares_given(total, parts, k),
    decreases k - j,
{
    if j < k {
        lemma_shares_given_monotone(total, parts, j, k - 1);
        lemma_share_at_bounds(total, parts, k - 1);
    }
}

/// The space before an item is never negative and never more than the free
/// space.
pub proof fn lemma_justify_lead_bounds(justify: JustifyContent, free: int, count: int, i: int)
    requires
        0 <= free,
        0 <= i < count,
    ensures
        0 <= justify_lead(justify, free, count, i) <= free,
{
    match justify {
        JustifyContent::SpaceBetween => {
            if count > 1 {
                lemma_shares_given_bounds(free, count - 1, i);
            }
        },
        JustifyContent::SpaceAround => {
            lemma_shares_given_bounds(free, 2 * count, 2 * i + 1);
        },
        JustifyContent::SpaceEvenly => {
            lemma_shares_given_bounds(free, count + 1, i + 1);
        },
        _ => {},
    }
}

/// A later item has no less space before it than an earlier one.
pub proof fn lemma_justify_lead_monotone(
    justify: JustifyContent,
    free: int,
    count: int,
    i: int,
    j: int,
)
    requires
        0 <= free,
        0 <= i <= j < count,
    ensures
        justify_lead(justify, free, count, i) <= justify_lead(justify, free, count, j),
{
    match justify {
        JustifyContent::SpaceBetween => {
            if count > 1 {
                lemma_shares_given_monotone(free, count - 1, i, j);
            }
        },
        JustifyContent::SpaceAround => {
            lemma_shares_given_monotone(free, 2 * count, 2 * i + 1, 2 * j + 1);
        },
        JustifyContent::SpaceEvenly => {
            lemma_shares_given_monotone(free, count + 1, i + 1, j + 1);
        },
        _ => {},
    }
}

/// A portion is never negative and never more than what is left, as long as
/// the item's grow factor is among those still to be served.
pub proof fn lemma_grow_portion_bounds(left: int, grow: int, grow_left: int)
    requires
        0 <= left,
        0 <= grow <= grow_left,
    ensures
        0 <= grow_portion(left, grow, grow_left) <= left,
        grow_left > 0 && grow == grow_left ==> grow_portion(left, grow, grow_left) == left,
{
    if grow_left > 0 {
        assert(0 <= left * grow / grow_left <= left) by (nonlinear_arith)
            requires
                0 <= left,
                0 <= grow <= grow_left,
                0 < grow_left,
        ;
        if grow == grow_left {
            assert(left * grow / grow == left) by (nonlinear_arith)
                requires
                    0 < grow,
            ;
        }
    }
}

/// The grow factors of the first items are among those of the line.
pub proof fn lemma_grow_total_of_prefix(items: Seq<FlexItem>, i: int)
    requires
        0 <= i <= items.len(),
    ensures
        0 <= grow_total(items.take(i)) <= grow_total(items),
        i < items.len() ==> grow_total(items.take(i)) + items[i].flex_grow <= grow_total(items),
{
    assert(items =~= items.take(i) + items.skip(i));
    lemma_grow_total_concat(items.take(i), items.skip(i));
    lemma_runs_nonnegative(items.take(i), FlexDirection::Row, 0);
    lemma_runs_nonnegative(items.skip(i), FlexDirection::Row, 0);
    if i < items.len() {
        assert(items =~= items.take(i + 1) + items.skip(i + 1));
        lemma_grow_total_concat(items.take(i + 1), items.skip(i + 1));
        lemma_runs_nonnegative(items.skip(i + 1), FlexDirection::Row, 0);
        lemma_grow_total_step(items, i);
    }
}

/// In grow mode the items are never given more than the free space, and each
/// item is given something or nothing, never less.
pub proof fn lemma_grow_given_bounds(items: Seq<FlexItem>, free: int, i: int)
    requires
        0 <= free,
        0 <= i <= items.len(),
    ensures
        0 <= grow_given(items, free, i) <= free,
        i < items.len() ==> 0 <= grow_extra(items, free, i),
        i < items.len() ==> grow_given(items, free, i + 1) <= free,
    decreases i,
{
    if i > 0 {
        lemma_grow_given_bounds(items, free, i - 1);
    }
    if i < items.len() {
        let before = grow_given(items, free, i);
        lemma_grow_total_of_prefix(items, i);
        lemma_grow_portion_bounds(
            free - before,
            items[i].flex_grow as int,
            grow_total(items) - grow_total(items.take(i)),
        );
    }
}

/// In grow mode, once every item that asks for growth has been served, all
/// of the free space has been given away.
pub proof fn lemma_grow_given_after_last_grower(items: Seq<FlexItem>, free: int, i: int)
    requires
        0 <= free,
        0 <= i <= items.len(),
        grow_total(items) > 0,
        grow_total(items.take(i)) == grow_total(items),
    ensures
        grow_given(items, free, i) == free,
    decreases i,
{
    if i > 0 {
        let before = grow_given(items, free, i - 1);
        lemma_grow_total_step(items, i - 1);
        lemma_grow_given_bounds(items, free, i - 1);
        lemma_grow_total_of_prefix(items, i - 1);
        if items[i - 1].flex_grow == 0 {
            lemma_grow_given_after_last_grower(items, free, i - 1);
        } else {
            lemma_grow_portion_bounds(
                free - before,
                items[i - 1].flex_grow as int,
                grow_total(items) - grow_total(items.take(i - 1)),
            );
        }
    } else {
        assert(items.take(0).len() == 0);
    }
}

/// An item starts behind the end of the item before it, with at least the
/// gap between the two; in grow mode with exactly the gap.
pub proof fn lemma_main_start_step(
    items: Seq<FlexItem>,
    options: FlexBoxOptions,
    extent: int,
    i: int,
)
    requires
        0 <= extent,
        0 <= i,
        i + 1 < items.len(),
    ensures
        main_end(items, options, extent, i) + options.main_axis_gap <= main_start(
            items,
            options,
            extent,
            i + 1,
        ),
        grow_total(items) > 0 ==> main_end(items, options, extent, i) + options.main_axis_gap
            == main_start(items, options, extent, i + 1),
{
    let gap = options.main_axis_gap as int;
    let free = free_space(items, options.direction, gap, extent);
    lemma_main_run_step(items, options.direction, gap, i);
    if grow_total(items) <= 0 {
        lemma_justify_lead_monotone(options.justification, free, items.len() as int, i, i + 1);
    }
}

/// Every item starts at or behind the start of the line, is not shorter than
/// it requires, and ends before the line's items and its free space are used
/// up.
pub proof fn lemma_main_bounds(
    items: Seq<FlexItem>,
    options: FlexBoxOptions,
    extent: int,
    i: int,
)
    requires
        0 <= extent,
        0 <= i < items.len(),
    ensures
        0 <= main_start(items, options, extent, i),
        options.direction.main_of(items[i].required_size) <= main_length(
            items,
            options,
            extent,
            i,
        ),
        main_end(items, options, extent, i) + options.main_axis_gap <= main_run(
            items,
            options.direction,
            options.main_axis_gap as int,
        ) + free_space(items, options.direction, options.main_axis_gap as int, extent),
{
    let gap = options.main_axis_gap as int;
    let dir = options.direction;
    let free = free_space(items, dir, gap, extent);
    lemma_runs_nonnegative(items, dir, gap);
    lemma_runs_nonnegative(items.take(i), dir, gap);
    lemma_main_run_step(items, dir, gap, i);
    crate::measure::lemma_runs_of_part(items, dir, gap, 0, i + 1);
    assert(items.subrange(0, i + 1) =~= items.take(i + 1));
    lemma_runs_nonnegative(items.take(0), dir, gap);
    if grow_total(items) > 0 {
        lemma_grow_given_bounds(items, free, i);
    } else {
        lemma_justify_lead_bounds(options.justification, free, items.len() as int, i);
    }
}

/// Items follow each other along the main axis in their order.
pub proof fn lemma_main_order(
    items: Seq<FlexItem>,
    options: FlexBoxOptions,
    extent: int,
    i: int,
    j: int,
)
    requires
        0 <= extent,
        0 <= i <= j < items.len(),
    ensures
        main_start(items, options, extent, i) <= main_start(items, options, extent, j),
        main_end(items, options, extent, i) <= main_end(items, options, extent, j),
    decreases j - i,
{
    if i < j {
        lemma_main_order(items, options, extent, i, j - 1);
        lemma_main_start_step(items, options, extent, j - 1);
        lemma_main_bounds(items, options, extent, j);
        lemma_main_bounds(items, options, extent, j - 1);
    }
}

/// No item is placed before the first start of the line or behind its last
/// start, whatever the direction. Forward, no item ends behind the end of
/// the last item. In a reversed direction an item may, but none ends behind
/// the reach of the line.
pub proof fn lemma_placed_bounds(
    items: Seq<FlexItem>,
    options: FlexBoxOptions,
    extent: int,
    i: int,
)
    requires
        0 <= extent,
        0 <= i < items.len(),
    ensures
        0 <= main_start(items, options, extent, 0) <= placed_start(items, options, extent, i)
            <= main_start(items, options, extent, items.len() - 1),
        !options.direction.is_reverse() ==> placed_start(items, options, extent, i)
            + main_length(items, options, extent, i) <= main_end(
            items,
            options,
            extent,
            items.len() - 1,
        ),
        placed_start(items, options, extent, i) + main_length(items, options, extent, i)
            <= main_reach(
            options.direction,
            main_run(items, options.direction, options.main_axis_gap as int) + free_space(
                items,
                options.direction,
                options.main_axis_gap as int,
                extent,
            ),
        ),
{
    let other = items.len() - 1 - i;
    lemma_main_bounds(items, options, extent, 0);
    lemma_main_bounds(items, options, extent, i);
    lemma_main_bounds(items, options, extent, other);
    lemma_main_bounds(items, options, extent, items.len() - 1);
    lemma_main_order(items, options, extent, 0, i);
    lemma_main_order(items, options, extent, i, items.len() - 1);
    lemma_main_order(items, options, extent, 0, other);
    lemma_main_order(items, options, extent, other, items.len() - 1);
}

/// Two directions along the same axis give every item of a line the same
/// start and the same length, as long as nothing else differs between the
/// options.
pub proof fn lemma_same_axis_distributes_alike(
    items: Seq<FlexItem>,
    options: FlexBoxOptions,
    other: FlexDirection,
    extent: int,
    i: int,
)
    requires
        options.direction.is_row() == other.is_row(),
        0 <= i < items.len(),
    ensures
        main_start(items, options, extent, i) == main_start(
            items,
            FlexBoxOptions { direction: other, ..options },
            extent,
            i,
        ),
        main_length(items, options, extent, i) == main_length(
            items,
            FlexBoxOptions { direction: other, ..options },
            extent,
            i,
        ),
{
    let gap = options.main_axis_gap as int;
    crate::measure::lemma_same_axis_measures_alike(items, options.direction, other, gap);
    crate::measure::lemma_same_axis_measures_alike(items.take(i), options.direction, other, gap);
}

/// Where the free space of a line is a whole multiple of the sum of its grow
/// factors, the first items have been given that multiple of their grow
/// factors.
pub proof fn lemma_grow_given_in_proportion(items: Seq<FlexItem>, free: int, unit: int, i: int)
    requires
        0 <= unit,
        free == unit * grow_total(items),
        0 <= i <= items.len(),
    ensures
        grow_given(items, free, i) == unit * grow_total(items.take(i)),
    decreases i,
{
    if i > 0 {
        let total = grow_total(items);
        let before = grow_total(items.take(i - 1));
        let grow = items[i - 1].flex_grow as int;
        let grow_left = total - before;
        lemma_grow_given_in_proportion(items, free, unit, i - 1);
        lemma_grow_total_step(items, i - 1);
        lemma_grow_total_of_prefix(items, i - 1);
        assert(unit * total - unit * before == unit * grow_left) by (nonlinear_arith)
            requires
                grow_left == total - before,
        ;
        assert(unit * before + unit * grow == unit * (before + grow)) by (nonlinear_arith);
        if grow_left > 0 {
            assert((unit * grow_left) * grow / grow_left == unit * grow) by (nonlinear_arith)
                requires
                    grow_left > 0,
            ;
        } else {
            assert(unit * grow == 0) by (nonlinear_arith)
                requires
                    grow == 0,
            ;
        }
    } else {
        assert(items.take(0).len() == 0);
        assert(unit * 0 == 0) by (nonlinear_arith);
    }
}

} // verus!
