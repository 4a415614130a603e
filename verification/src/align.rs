//! Where an item lies across its line, and how far it reaches.

use vstd::prelude::*;
use crate::geometry::{Rect, XY};
use crate::item::FlexItem;
use crate::distribute::{main_length, placed_start};
use crate::measure::cross_size;
use crate::options::{AlignItems, FlexBoxOptions};
use crate::pack::{line_count, line_of, line_start, packing_index, stacked_lines};
use crate::stack::line_base;

verus! {

/// Where an item that requires `own` cells across a line of `line` cells
/// starts, counted from the start of the line.
pub open spec fn cross_start(align: AlignItems, line: int, own: int) -> int {
    match align {
        AlignItems::FlexStart => 0,
        AlignItems::FlexEnd => line - own,
        AlignItems::Center => (line - own) / 2,
        AlignItems::Stretch => 0,
    }
}

/// How far an item that requires `own` cells reaches across a line of `line`
/// cells.
pub open spec fn cross_length(align: AlignItems, line: int, own: int) -> int {
    match align {
        AlignItems::Stretch => line,
        _ => own,
    }
}

/// Whether `rect` is the place of item `k` of a line within that line, in a
/// container of the given size: along the main axis as the free space is
/// distributed, across it as `align-items` says.
pub open spec fn is_place_in_line(
    rect: Rect,
    items: Seq<FlexItem>,
    options: FlexBoxOptions,
    container: XY,
    k: int,
) -> bool {
    let dir = options.direction;
    let extent = dir.main_of(container) as int;
    let line = cross_size(items, dir);
    let own = dir.cross_of(items[k].required_size) as int;
    &&& dir.main_of(rect.top_left) == placed_start(items, options, extent, k)
    &&& dir.main_of(rect.size) == main_length(items, options, extent, k)
    &&& dir.cross_of(rect.top_left) == cross_start(options.item_alignment, line, own)
    &&& dir.cross_of(rect.size) == cross_length(options.item_alignment, line, own)
}

/// Whether `rect` is the place of item `k` of the line stacked at place `s`
/// within a container of the given size: within the line as `is_place_in_line`
/// says, the line where the stack of lines puts it.
pub open spec fn is_place(
    rect: Rect,
    lines: Seq<Seq<FlexItem>>,
    options: FlexBoxOptions,
    container: XY,
    s: int,
    k: int,
) -> bool {
    let dir = options.direction;
    let items = lines[s];
    let extent = dir.main_of(container) as int;
    let line = cross_size(items, dir);
    let own = dir.cross_of(items[k].required_size) as int;
    &&& dir.main_of(rect.top_left) == placed_start(items, options, extent, k)
    &&& dir.main_of(rect.size) == main_length(items, options, extent, k)
    &&& dir.cross_of(rect.top_left) == line_base(
        lines,
        options,
        dir.cross_of(container) as int,
        s,
    ) + cross_start(options.item_alignment, line, own)
    &&& dir.cross_of(rect.size) == cross_length(options.item_alignment, line, own)
}

/// Whether `rect` is the place of the item at place `i` among `content` in a
/// container of the given size: the place, within the stack of the lines that
/// the content packs into, of that item on its line.
pub open spec fn is_item_place(
    rect: Rect,
    content: Seq<FlexItem>,
    options: FlexBoxOptions,
    container: XY,
    i: int,
) -> bool {
    let extent = options.direction.main_of(container) as int;
    let l = line_of(content, options, extent, i);
    is_place(
        rect,
        stacked_lines(content, options, extent),
        options,
        container,
        packing_index(options.wrap, line_count(content, options, extent), l),
        i - line_start(content, options, extent, l),
    )
}

/// No item requires more across the line than the line's cross size.
pub proof fn lemma_cross_size_covers(
    items: Seq<FlexItem>,
    dir: crate::options::FlexDirection,
    k: int,
)
    requires
        0 <= k < items.len(),
    ensures
        dir.cross_of(items[k].required_size) <= cross_size(items, dir),
    decreases items.len(),
{
    if k < items.len() - 1 {
        lemma_cross_size_covers(items.drop_last(), dir, k);
    }
}

/// An item lies within its line: it starts at or behind the line's start and
/// ends at or before the line's end.
pub proof fn lemma_cross_bounds(align: AlignItems, line: int, own: int)
    requires
        0 <= own <= line,
    ensures
        0 <= cross_start(align, line, own),
        0 <= cross_length(align, line, own),
        cross_start(align, line, own) + cross_length(align, line, own) <= line,
{
}

} // verus!
