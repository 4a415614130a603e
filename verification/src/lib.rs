//! A flexbox layout solver for character-grid user interfaces.
//!
//! Items report the size they need; the solver packs them into lines along a
//! main axis, hands out the space that is left over, aligns items and lines
//! along the cross axis, and returns one rectangle per item. Every function
//! carries a contract that Verus proves, but for the two calls into
//! `cursive_core` in the module `geometry`, whose contracts are taken from
//! that crate.

pub mod align;
pub mod axis;
pub mod container;
pub mod distribute;
pub mod error;
pub mod flexbox;
pub mod geometry;
pub mod item;
pub mod laws;
pub mod layout;
pub mod measure;
pub mod options;
pub mod pack;
pub mod share;
pub mod spread;
pub mod stack;

pub use axis::MainAxis;
pub use container::FlexboxLayout;
pub use error::FlexboxError;
pub use flexbox::Flexbox;
pub use geometry::{Rect, XY};
pub use item::FlexItem;
pub use layout::{global_to_view_coordinates, important_area, Layout, PlacedElement};
pub use options::{
    AlignContent, AlignItems, FlexBoxOptions, FlexDirection, FlexWrap, JustifyContent,
};
