//! Where the lines lie across the container.
//!
//! Lines are stacked one after the other along the cross axis, a gap between
//! each two. The space that the stack leaves of the container is placed
//! around the lines as `align-content` says.

use vstd::prelude::*;
use crate::distribute::lemma_shares_given_monotone;
use crate::item::FlexItem;
use crate::measure::{cross_size, lemma_runs_nonnegative};
use crate::options::{AlignContent, FlexBoxOptions, FlexDirection};
use crate::share::{lemma_shares_given_bounds, shares_given};

verus! {

/// The cross-axis length of a stack of lines in which a gap follows every
/// line.
pub open spec fn stack_run(lines: Seq<Seq<FlexItem>>, dir: FlexDirection, gap: int) -> int
    decreases lines.len(),
{
    if lines.len() == 0 {
        0
    } else {
        stack_run(lines.drop_last(), dir, gap) + cross_size(lines.last(), dir) + gap
    }
}

/// The cross-axis space that the lines take: their cross sizes, and one gap
/// between each two neighbours.
pub open spec fn stack_used(lines: Seq<Seq<FlexItem>>, dir: FlexDirection, gap: int) -> int {
    if lines.len() == 0 {
        0
    } else {
        stack_run(lines, dir, gap) - gap
    }
}

/// The cross-axis space that the lines leave of `extent`; nothing where the
/// stack is longer.
pub open spec fn cross_free_space(
    lines: Seq<Seq<FlexItem>>,
    dir: FlexDirection,
    gap: int,
    extent: int,
) -> int {
    let used = stack_used(lines, dir, gap);
    if extent > used {
        extent - used
    } else {
        0
    }
}

/// The free space that lies before line `s` of `count` lines in a container
/// that has `free` cells to place across.
pub open spec fn content_lead(align: AlignContent, free: int, count: int, s: int) -> int {
    match align {
        AlignContent::FlexStart => 0,
        AlignContent::FlexEnd => free,
        AlignContent::Center => free / 2,
        AlignContent::Stretch => shares_given(free, count, s),
        AlignContent::SpaceBetween => shares_given(free, count - 1, s),
        AlignContent::SpaceAround => shares_given(free, 2 * count, 2 * s + 1),
    }
}

/// Where line `s` starts across a container that is `extent` cells long
/// across.
pub open spec fn line_base(
    lines: Seq<Seq<FlexItem>>,
    options: FlexBoxOptions,
    extent: int,
    s: int,
) -> int {
    let dir = options.direction;
    let gap = options.cross_axis_gap as int;
    stack_run(lines.take(s), dir, gap) + content_lead(
        options.axes_alignment,
        cross_free_space(lines, dir, gap, extent),
        lines.len() as int,
        s,
    )
}

/// The number of items on the lines.
pub open spec fn count_items(lines: Seq<Seq<FlexItem>>) -> int
    decreases lines.len(),
{
    if lines.len() == 0 {
        0
    } else {
        count_items(lines.drop_last()) + lines.last().len()
    }
}

/// The place that item `k` of line `s` has when the lines are written out
/// one after the other.
pub open spec fn flat_index(lines: Seq<Seq<FlexItem>>, s: int, k: int) -> int {
    count_items(lines.take(s)) + k
}

/// Taking one line more adds its items.
pub proof fn lemma_count_items_step(lines: Seq<Seq<FlexItem>>, s: int)
    requires
        0 <= s < lines.len(),
    ensures
        count_items(lines.take(s + 1)) == count_items(lines.take(s)) + lines[s].len(),
        0 <= count_items(lines.take(s)),
    decreases s,
{
    assert(lines.take(s + 1).drop_last() =~= lines.take(s));
    if s > 0 {
        lemma_count_items_step(lines, s - 1);
    }
}

/// Taking one line more adds its cross size and a gap.
pub proof fn lemma_stack_run_step(
    lines: Seq<Seq<FlexItem>>,
    dir: FlexDirection,
    gap: int,
    s: int,
)
    requires
        0 <= s < lines.len(),
    ensures
        stack_run(lines.take(s + 1), dir, gap) == stack_run(lines.take(s), dir, gap) + cross_size(
            lines[s],
            dir,
        ) + gap,
{
    assert(lines.take(s + 1).drop_last() =~= lines.take(s));
}

/// A stack laid after another is as long as both.
pub proof fn lemma_stack_run_concat(
    head: Seq<Seq<FlexItem>>,
    tail: Seq<Seq<FlexItem>>,
    dir: FlexDirection,
    gap: int,
)
    ensures
        stack_run(head + tail, dir, gap) == stack_run(head, dir, gap) + stack_run(tail, dir, gap),
    decreases tail.len(),
{
    if tail.len() == 0 {
        assert(head + tail =~= head);
    } else {
        assert((head + tail).drop_last() =~= head + tail.drop_last());
        lemma_stack_run_concat(head, tail.drop_last(), dir, gap);
    }
}

/// No stack has a negative length, and a part of it is no longer than the
/// whole.
pub proof fn lemma_stack_run_bounds(
    lines: Seq<Seq<FlexItem>>,
    dir: FlexDirection,
    gap: int,
    s: int,
)
    requires
        0 <= gap,
        0 <= s <= lines.len(),
    ensures
        0 <= stack_run(lines.take(s), dir, gap) <= stack_run(lines, dir, gap),
        0 <= stack_used(lines, dir, gap),
        s < lines.len() ==> stack_run(lines.take(s), dir, gap) + cross_size(lines[s], dir) + gap
            <= stack_run(lines, dir, gap),
    decreases lines.len() - s,
{
    if s == lines.len() {
        assert(lines.take(s) =~= lines);
        lemma_stack_run_nonnegative(lines, dir, gap);
        if lines.len() > 0 {
            lemma_stack_run_nonnegative(lines.drop_last(), dir, gap);
            lemma_runs_nonnegative(lines.last(), dir, gap);
        }
    } else {
        lemma_stack_run_bounds(lines, dir, gap, s + 1);
        lemma_stack_run_step(lines, dir, gap, s);
        lemma_stack_run_nonnegative(lines.take(s), dir, gap);
        lemma_runs_nonnegative(lines[s], dir, gap);
    }
}

proof fn lemma_stack_run_nonnegative(lines: Seq<Seq<FlexItem>>, dir: FlexDirection, gap: int)
    requires
        0 <= gap,
    ensures
        0 <= stack_run(lines, dir, gap),
    decreases lines.len(),
{
    if lines.len() > 0 {
        lemma_stack_run_nonnegative(lines.drop_last(), dir, gap);
        lemma_runs_nonnegative(lines.last(), dir, gap);
    }
}

/// The space before a line is never negative and never more than the free
/// space.
pub proof fn lemma_content_lead_bounds(align: AlignContent, free: int, count: int, s: int)
    requires
        0 <= free,
        0 <= s < count,
    ensures
        0 <= content_lead(align, free, count, s) <= free,
{
    match align {
        AlignContent::Stretch => {
            lemma_shares_given_bounds(free, count, s);
        },
        AlignContent::SpaceBetween => {
            if count > 1 {
                lemma_shares_given_bounds(free, count - 1, s);
            }
        },
        AlignContent::SpaceAround => {
            lemma_shares_given_bounds(free, 2 * count, 2 * s + 1);
        },
        _ => {},
    }
}

/// A later line has no less space before it than an earlier one.
pub proof fn lemma_content_lead_monotone(
    align: AlignContent,
    free: int,
    count: int,
    s: int,
    t: int,
)
    requires
        0 <= free,
        0 <= s <= t < count,
    ensures
        content_lead(align, free, count, s) <= content_lead(align, free, count, t),
{
    match align {
        AlignContent::Stretch => {
            lemma_shares_given_monotone(free, count, s, t);
        },
        AlignContent::SpaceBetween => {
            if count > 1 {
                lemma_shares_given_monotone(free, count - 1, s, t);
            }
        },
        AlignContent::SpaceAround => {
            lemma_shares_given_monotone(free, 2 * count, 2 * s + 1, 2 * t + 1);
        },
        _ => {},
    }
}

/// Two directions along the same axis measure every stack of lines alike.
pub proof fn lemma_same_axis_stacks_alike(
    lines: Seq<Seq<FlexItem>>,
    a: FlexDirection,
    b: FlexDirection,
    gap: int,
)
    requires
        a.is_row() == b.is_row(),
    ensures
        stack_run(lines, a, gap) == stack_run(lines, b, gap),
        stack_used(lines, a, gap) == stack_used(lines, b, gap),
    decreases lines.len(),
{
    if lines.len() > 0 {
        lemma_same_axis_stacks_alike(lines.drop_last(), a, b, gap);
        crate::measure::lemma_same_axis_measures_alike(lines.last(), a, b, gap);
    }
}

} // verus!
