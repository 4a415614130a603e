//! The policies that steer a layout pass.

use vstd::prelude::*;
use crate::geometry::XY;

verus! {

/// Direction of a flex container's main axis.
#[derive(Debug, Clone, Copy, PartialEq, Eq, Hash, Structural)]
pub enum FlexDirection {
    /// Flex items are laid out in a row.
    Row,
    /// Flex items are laid out in a row, each starting where its counterpart
    /// from the other end of its line would start in `Row`.
    RowReverse,
    /// Flex items are laid out in a column.
    Column,
    /// Flex items are laid out in a column, each starting where its
    /// counterpart from the other end of its line would start in `Column`.
    ColumnReverse,
}

/// Wrapping behavior and direction of a flexbox container's main axis.
#[derive(Debug, Clone, Copy, PartialEq, Eq, Hash, Structural)]
pub enum FlexWrap {
    /// Don't wrap the main axis.
    NoWrap,
    /// Wrap the main axis.
    Wrap,
    /// Wrap the main axis in the opposite direction.
    WrapReverse,
}

/// Alignment of items in a flexbox along the main axis.
#[derive(Debug, Clone, Copy, PartialEq, Eq, Hash, Structural)]
pub enum JustifyContent {
    /// Flex items are packed against the start of the container.
    FlexStart,
    /// Flex items are packed against the end of the container.
    FlexEnd,
    /// Flex items are packed in the center, with equal space to either side.
    Center,
    /// Flex items are packed with equal space between them.
    SpaceBetween,
    /// Flex items are packed with equal space around each item.
    SpaceAround,
    /// Flex items are packed with equal space between all items (including the sides).
    SpaceEvenly,
}

/// Alignment of items in a flexbox along the cross axis.
#[derive(Debug, Clone, Copy, PartialEq, Eq, Hash, Structural)]
pub enum AlignItems {
    /// Align flex items at the start of the cross axis.
    FlexStart,
    /// Align flex items at the end of the cross axis.
    FlexEnd,
    /// Align flex items at the center of the cross axis.
    Center,
    /// Stretch flex items to fill all the space along the cross axis.
    Stretch,
}

/// Alignment of the main axes in a flexbox.
#[derive(Debug, Clone, Copy, PartialEq, Eq, Hash, Structural)]
pub enum AlignContent {
    /// Align content to the start of the container.
    FlexStart,
    /// Align content to the end of the container.
    FlexEnd,
    /// Align content to the center of the container.
    Center,
    /// Stretch content along the cross axis.
    Stretch,
    /// Align main axis with an equal amount of space between them.
    SpaceBetween,
    /// Align main axis with an equal of margin per axis.
    SpaceAround,
}

/// Options that can alter the behavior of a flexbox.
#[derive(Debug, Clone, Copy, PartialEq, Eq, Hash, Structural)]
pub struct FlexBoxOptions {
    /// The direction of the main axis.
    pub direction: FlexDirection,
    /// Policy that places extra space on the main axis. It does nothing on a
    /// line where some item asks for extra space with a grow factor.
    pub justification: JustifyContent,
    /// How to place items on the cross axis.
    pub item_alignment: AlignItems,
    /// How to place the main axes in the container.
    pub axes_alignment: AlignContent,
    /// Gap between items on the main axis. The gap doesn't get added to the sides.
    pub main_axis_gap: u32,
    /// Gap between the main axes.
    pub cross_axis_gap: u32,
    /// Wrapping behavior of the main axes.
    pub wrap: FlexWrap,
}

impl FlexDirection {
    /// Whether the main axis is horizontal.
    pub open spec fn is_row(self) -> bool {
        self is Row || self is RowReverse
    }

    /// Whether items are mirrored along the main axis.
    pub open spec fn is_reverse(self) -> bool {
        self is RowReverse || self is ColumnReverse
    }

    /// The direction along the same axis that does not mirror.
    pub open spec fn forward(self) -> FlexDirection {
        if self.is_row() {
            FlexDirection::Row
        } else {
            FlexDirection::Column
        }
    }

    /// The length of `v` along the main axis.
    pub open spec fn main_of(self, v: XY) -> usize {
        if self.is_row() {
            v.x
        } else {
            v.y
        }
    }

    /// The length of `v` along the cross axis.
    pub open spec fn cross_of(self, v: XY) -> usize {
        if self.is_row() {
            v.y
        } else {
            v.x
        }
    }

    /// The point or size with `main` along the main axis and `cross` along
    /// the cross axis.
    pub open spec fn compose(self, main: usize, cross: usize) -> XY {
        if self.is_row() {
            XY { x: main, y: cross }
        } else {
            XY { x: cross, y: main }
        }
    }

    /// The CSS keyword of this direction.
    pub open spec fn keyword(self) -> Seq<char> {
        match self {
            FlexDirection::Row => "row"@,
            FlexDirection::RowReverse => "row-reverse"@,
            FlexDirection::Column => "column"@,
            FlexDirection::ColumnReverse => "column-reverse"@,
        }
    }

    /// Whether the main axis is horizontal.
    pub fn horizontal(&self) -> (r: bool)
        ensures
            r == self.is_row(),
    {
        match self {
            FlexDirection::Row | FlexDirection::RowReverse => true,
            FlexDirection::Column | FlexDirection::ColumnReverse => false,
        }
    }

    /// Whether items are mirrored along the main axis.
    pub fn reversed(&self) -> (r: bool)
        ensures
            r == self.is_reverse(),
    {
        match self {
            FlexDirection::RowReverse | FlexDirection::ColumnReverse => true,
            FlexDirection::Row | FlexDirection::Column => false,
        }
    }

    /// The length of `v` along the main axis.
    pub fn main_axis(&self, v: XY) -> (r: usize)
        ensures
            r == self.main_of(v),
    {
        if self.horizontal() {
            v.x
        } else {
            v.y
        }
    }

    /// The length of `v` along the cross axis.
    pub fn cross_axis(&self, v: XY) -> (r: usize)
        ensures
            r == self.cross_of(v),
    {
        if self.horizontal() {
            v.y
        } else {
            v.x
        }
    }

    /// The point or size with `main` along the main axis and `cross` along
    /// the cross axis.
    pub fn place(&self, main: usize, cross: usize) -> (r: XY)
        ensures
            r == self.compose(main, cross),
    {
        if self.horizontal() {
            XY { x: main, y: cross }
        } else {
            XY { x: cross, y: main }
        }
    }

    /// The CSS keyword of this direction.
    pub fn to_string(&self) -> (s: String)
        ensures
            s@ == self.keyword(),
    {
        match self {
            FlexDirection::Row => "row".to_owned(),
            FlexDirection::RowReverse => "row-reverse".to_owned(),
            FlexDirection::Column => "column".to_owned(),
            FlexDirection::ColumnReverse => "column-reverse".to_owned(),
        }
    }
}

impl Default for FlexDirection {
    fn default() -> (d: Self)
        ensures
            d == FlexDirection::Row,
    {
        FlexDirection::Row
    }
}

impl FlexWrap {
    /// The CSS keyword of this policy.
    pub open spec fn keyword(self) -> Seq<char> {
        match self {
            FlexWrap::NoWrap => "nowrap"@,
            FlexWrap::Wrap => "wrap"@,
            FlexWrap::WrapReverse => "wrap-reverse"@,
        }
    }

    /// The CSS keyword of this policy.
    pub fn to_string(&self) -> (s: String)
        ensures
            s@ == self.keyword(),
    {
        match self {
            FlexWrap::NoWrap => "nowrap".to_owned(),
            FlexWrap::Wrap => "wrap".to_owned(),
            FlexWrap::WrapReverse => "wrap-reverse".to_owned(),
        }
    }
}

impl Default for FlexWrap {
    fn default() -> (d: Self)
        ensures
            d == FlexWrap::NoWrap,
    {
        FlexWrap::NoWrap
    }
}

impl JustifyContent {
    /// The CSS keyword of this policy.
    pub open spec fn keyword(self) -> Seq<char> {
        match self {
            JustifyContent::FlexStart => "flex-start"@,
            JustifyContent::FlexEnd => "flex-end"@,
            JustifyContent::Center => "center"@,
            JustifyContent::SpaceBetween => "space-between"@,
            JustifyContent::SpaceAround => "space-around"@,
            JustifyContent::SpaceEvenly => "space-evenly"@,
        }
    }

    /// The CSS keyword of this policy.
    pub fn to_string(&self) -> (s: String)
        ensures
            s@ == self.keyword(),
    {
        match self {
            JustifyContent::FlexStart => "flex-start".to_owned(),
            JustifyContent::FlexEnd => "flex-end".to_owned(),
            JustifyContent::Center => "center".to_owned(),
            JustifyContent::SpaceBetween => "space-between".to_owned(),
            JustifyContent::SpaceAround => "space-around".to_owned(),
            JustifyContent::SpaceEvenly => "space-evenly".to_owned(),
        }
    }
}

impl Default for JustifyContent {
    fn default() -> (d: Self)
        ensures
            d == JustifyContent::FlexStart,
    {
        JustifyContent::FlexStart
    }
}

impl AlignItems {
    /// The CSS keyword of this policy.
    pub open spec fn keyword(self) -> Seq<char> {
        match self {
            AlignItems::FlexStart => "flex-start"@,
            AlignItems::FlexEnd => "flex-end"@,
            AlignItems::Center => "center"@,
            AlignItems::Stretch => "stretch"@,
        }
    }

    /// The CSS keyword of this policy.
    pub fn to_string(&self) -> (s: String)
        ensures
            s@ == self.keyword(),
    {
        match self {
            AlignItems::FlexStart => "flex-start".to_owned(),
            AlignItems::FlexEnd => "flex-end".to_owned(),
            AlignItems::Center => "center".to_owned(),
            AlignItems::Stretch => "stretch".to_owned(),
        }
    }
}

impl Default for AlignItems {
    fn default() -> (d: Self)
        ensures
            d == AlignItems::Stretch,
    {
        AlignItems::Stretch
    }
}

impl AlignContent {
    /// The CSS keyword of this policy.
    pub open spec fn keyword(self) -> Seq<char> {
        match self {
            AlignContent::FlexStart => "flex-start"@,
            AlignContent::FlexEnd => "flex-end"@,
            AlignContent::Center => "center"@,
            AlignContent::Stretch => "stretch"@,
            AlignContent::SpaceBetween => "space-between"@,
            AlignContent::SpaceAround => "space-around"@,
        }
    }

    /// The CSS keyword of this policy.
    pub fn to_string(&self) -> (s: String)
        ensures
            s@ == self.keyword(),
    {
        match self {
            AlignContent::FlexStart => "flex-start".to_owned(),
            AlignContent::FlexEnd => "flex-end".to_owned(),
            AlignContent::Center => "center".to_owned(),
            AlignContent::Stretch => "stretch".to_owned(),
            AlignContent::SpaceBetween => "space-between".to_owned(),
            AlignContent::SpaceAround => "space-around".to_owned(),
        }
    }
}

impl Default for AlignContent {
    fn default() -> (d: Self)
        ensures
            d == AlignContent::FlexStart,
    {
        AlignContent::FlexStart
    }
}

impl FlexBoxOptions {
    /// The neutral baseline: a row that does not wrap, items packed at the
    /// start and stretched across the line, lines packed at the start, no gaps.
    pub open spec fn baseline() -> Self {
        FlexBoxOptions {
            direction: FlexDirection::Row,
            justification: JustifyContent::FlexStart,
            item_alignment: AlignItems::Stretch,
            axes_alignment: AlignContent::FlexStart,
            main_axis_gap: 0,
            cross_axis_gap: 0,
            wrap: FlexWrap::NoWrap,
        }
    }
}

impl Default for FlexBoxOptions {
    fn default() -> (o: Self)
        ensures
            o == FlexBoxOptions::baseline(),
    {
        FlexBoxOptions {
            direction: FlexDirection::Row,
            justification: JustifyContent::FlexStart,
            item_alignment: AlignItems::Stretch,
            axes_alignment: AlignContent::FlexStart,
            main_axis_gap: 0,
            cross_axis_gap: 0,
            wrap: FlexWrap::NoWrap,
        }
    }
}

} // verus!
