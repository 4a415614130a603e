//! What a run of items measures along each axis.

use vstd::prelude::*;
use crate::item::FlexItem;
use crate::options::FlexDirection;

verus! {

/// The main-axis length of a run of items in which a gap follows every item.
pub open spec fn main_run(items: Seq<FlexItem>, dir: FlexDirection, gap: int) -> int
    decreases items.len(),
{
    if items.len() == 0 {
        0
    } else {
        main_run(items.drop_last(), dir, gap) + dir.main_of(items.last().required_size) + gap
    }
}

/// The cross-axis length of a stack of items in which a gap follows every
/// item.
pub open spec fn cross_run(items: Seq<FlexItem>, dir: FlexDirection, gap: int) -> int
    decreases items.len(),
{
    if items.len() == 0 {
        0
    } else {
        cross_run(items.drop_last(), dir, gap) + dir.cross_of(items.last().required_size) + gap
    }
}

/// The main-axis space that a line of items takes: their lengths, and one gap
/// between each two neighbours.
pub open spec fn used_space(items: Seq<FlexItem>, dir: FlexDirection, gap: int) -> int {
    if items.len() == 0 {
        0
    } else {
        main_run(items, dir, gap) - gap
    }
}

/// The main-axis space that a line of items leaves of `extent`; nothing where
/// the line is longer.
pub open spec fn free_space(
    items: Seq<FlexItem>,
    dir: FlexDirection,
    gap: int,
    extent: int,
) -> int {
    let used = used_space(items, dir, gap);
    if extent > used {
        extent - used
    } else {
        0
    }
}

/// How far the items of a line may reach along the main axis, when the line
/// with its free space is `length` long. Forward, no item ends behind the
/// line. In a reversed direction an item starts where another one would, so
/// it may end behind the line, by less than the line is long.
pub open spec fn main_reach(dir: FlexDirection, length: int) -> int {
    if dir.is_reverse() {
        2 * length
    } else {
        length
    }
}

/// The sum of the grow factors of a run of items.
pub open spec fn grow_total(items: Seq<FlexItem>) -> int
    decreases items.len(),
{
    if items.len() == 0 {
        0
    } else {
        grow_total(items.drop_last()) + items.last().flex_grow
    }
}

/// The cross-axis size of a line: the largest that one of its items requires.
pub open spec fn cross_size(items: Seq<FlexItem>, dir: FlexDirection) -> int
    decreases items.len(),
{
    if items.len() == 0 {
        0
    } else {
        let rest = cross_size(items.drop_last(), dir);
        let own = dir.cross_of(items.last().required_size) as int;
        if own > rest {
            own
        } else {
            rest
        }
    }
}

/// Taking one item more adds its main-axis length and a gap.
pub proof fn lemma_main_run_step(items: Seq<FlexItem>, dir: FlexDirection, gap: int, i: int)
    requires
        0 <= i < items.len(),
    ensures
        main_run(items.take(i + 1), dir, gap) == main_run(items.take(i), dir, gap) + dir.main_of(
            items[i].required_size,
        ) + gap,
{
    assert(items.take(i + 1).drop_last() =~= items.take(i));
}

/// Taking one item more adds its cross-axis length and a gap.
pub proof fn lemma_cross_run_step(items: Seq<FlexItem>, dir: FlexDirection, gap: int, i: int)
    requires
        0 <= i < items.len(),
    ensures
        cross_run(items.take(i + 1), dir, gap) == cross_run(items.take(i), dir, gap)
            + dir.cross_of(items[i].required_size) + gap,
{
    assert(items.take(i + 1).drop_last() =~= items.take(i));
}

/// Taking one item more adds its grow factor.
pub proof fn lemma_grow_total_step(items: Seq<FlexItem>, i: int)
    requires
        0 <= i < items.len(),
    ensures
        grow_total(items.take(i + 1)) == grow_total(items.take(i)) + items[i].flex_grow,
{
    assert(items.take(i + 1).drop_last() =~= items.take(i));
}

/// Taking one item more raises the cross size to that item's, if it is larger.
pub proof fn lemma_cross_size_step(items: Seq<FlexItem>, dir: FlexDirection, i: int)
    requires
        0 <= i < items.len(),
    ensures
        cross_size(items.take(i + 1), dir) == if dir.cross_of(items[i].required_size)
            > cross_size(items.take(i), dir) {
            dir.cross_of(items[i].required_size) as int
        } else {
            cross_size(items.take(i), dir)
        },
{
    assert(items.take(i + 1).drop_last() =~= items.take(i));
}

/// A run laid after another is as long as both.
pub proof fn lemma_main_run_concat(
    head: Seq<FlexItem>,
    tail: Seq<FlexItem>,
    dir: FlexDirection,
    gap: int,
)
    ensures
        main_run(head + tail, dir, gap) == main_run(head, dir, gap) + main_run(tail, dir, gap),
    decreases tail.len(),
{
    if tail.len() == 0 {
        assert(head + tail =~= head);
    } else {
        assert((head + tail).drop_last() =~= head + tail.drop_last());
        lemma_main_run_concat(head, tail.drop_last(), dir, gap);
    }
}

/// A stack laid after another is as long as both.
pub proof fn lemma_cross_run_concat(
    head: Seq<FlexItem>,
    tail: Seq<FlexItem>,
    dir: FlexDirection,
    gap: int,
)
    ensures
        cross_run(head + tail, dir, gap) == cross_run(head, dir, gap) + cross_run(tail, dir, gap),
    decreases tail.len(),
{
    if tail.len() == 0 {
        assert(head + tail =~= head);
    } else {
        assert((head + tail).drop_last() =~= head + tail.drop_last());
        lemma_cross_run_concat(head, tail.drop_last(), dir, gap);
    }
}

/// The grow factors of two runs add up.
pub proof fn lemma_grow_total_concat(head: Seq<FlexItem>, tail: Seq<FlexItem>)
    ensures
        grow_total(head + tail) == grow_total(head) + grow_total(tail),
    decreases tail.len(),
{
    if tail.len() == 0 {
        assert(head + tail =~= head);
    } else {
        assert((head + tail).drop_last() =~= head + tail.drop_last());
        lemma_grow_total_concat(head, tail.drop_last());
    }
}

/// No run has a negative length, and none is shorter than its cross size.
pub proof fn lemma_runs_nonnegative(items: Seq<FlexItem>, dir: FlexDirection, gap: int)
    requires
        0 <= gap,
    ensures
        0 <= main_run(items, dir, gap),
        0 <= cross_size(items, dir) <= cross_run(items, dir, gap),
        0 <= grow_total(items),
        0 <= used_space(items, dir, gap),
        items.len() > 0 ==> gap <= main_run(items, dir, gap),
    decreases items.len(),
{
    if items.len() > 0 {
        lemma_runs_nonnegative(items.drop_last(), dir, gap);
    }
}

/// A part of a run is no longer than the run.
pub proof fn lemma_runs_of_part(
    items: Seq<FlexItem>,
    dir: FlexDirection,
    gap: int,
    from: int,
    to: int,
)
    requires
        0 <= gap,
        0 <= from <= to <= items.len(),
    ensures
        main_run(items.subrange(from, to), dir, gap) <= main_run(items, dir, gap),
        cross_run(items.subrange(from, to), dir, gap) <= cross_run(items, dir, gap),
        main_run(items, dir, gap) == main_run(items.take(from), dir, gap) + main_run(
            items.subrange(from, to),
            dir,
            gap,
        ) + main_run(items.skip(to), dir, gap),
        cross_run(items, dir, gap) == cross_run(items.take(from), dir, gap) + cross_run(
            items.subrange(from, to),
            dir,
            gap,
        ) + cross_run(items.skip(to), dir, gap),
{
    let head = items.take(from);
    let part = items.subrange(from, to);
    let tail = items.skip(to);
    assert(items =~= (head + part) + tail);
    lemma_main_run_concat(head + part, tail, dir, gap);
    lemma_main_run_concat(head, part, dir, gap);
    lemma_cross_run_concat(head + part, tail, dir, gap);
    lemma_cross_run_concat(head, part, dir, gap);
    lemma_runs_nonnegative(head, dir, gap);
    lemma_runs_nonnegative(tail, dir, gap);
}

/// A part of a run asks for no more growth than the run.
pub proof fn lemma_grow_total_of_part(items: Seq<FlexItem>, from: int, to: int)
    requires
        0 <= from <= to <= items.len(),
    ensures
        0 <= grow_total(items.subrange(from, to)) <= grow_total(items),
{
    let head = items.take(from);
    let part = items.subrange(from, to);
    let tail = items.skip(to);
    assert(items =~= (head + part) + tail);
    lemma_grow_total_concat(head + part, tail);
    lemma_grow_total_concat(head, part);
    lemma_runs_nonnegative(head, FlexDirection::Row, 0);
    lemma_runs_nonnegative(part, FlexDirection::Row, 0);
    lemma_runs_nonnegative(tail, FlexDirection::Row, 0);
}

/// A line that holds an item is at least as long across, with its gap, as
/// its items stacked.
pub proof fn lemma_cross_size_within_run(items: Seq<FlexItem>, dir: FlexDirection, gap: int)
    requires
        0 <= gap,
        items.len() > 0,
    ensures
        cross_size(items, dir) + gap <= cross_run(items, dir, gap),
    decreases items.len(),
{
    lemma_runs_nonnegative(items.drop_last(), dir, gap);
    if items.len() > 1 {
        lemma_cross_size_within_run(items.drop_last(), dir, gap);
    }
}

/// Two directions along the same axis measure every run alike.
pub proof fn lemma_same_axis_measures_alike(
    items: Seq<FlexItem>,
    a: FlexDirection,
    b: FlexDirection,
    gap: int,
)
    requires
        a.is_row() == b.is_row(),
    ensures
        main_run(items, a, gap) == main_run(items, b, gap),
        cross_run(items, a, gap) == cross_run(items, b, gap),
        cross_size(items, a) == cross_size(items, b),
        used_space(items, a, gap) == used_space(items, b, gap),
    decreases items.len(),
{
    if items.len() > 0 {
        lemma_same_axis_measures_alike(items.drop_last(), a, b, gap);
    }
}

} // verus!
