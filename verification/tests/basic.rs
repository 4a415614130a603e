use cursive_core::views::{Panel, TextView};
use cursive_core::{Vec2, View};
use cursive_flexbox::{
    AlignContent, AlignItems, FlexDirection, FlexItem, FlexWrap, Flexbox, JustifyContent, XY,
};

/// An item for a view, with the size that the view requires on the given
/// screen.
fn item(mut view: impl View, screen: (usize, usize)) -> FlexItem {
    let size = view.required_size(Vec2::new(screen.0, screen.1));
    FlexItem::new(XY::new(size.x, size.y))
}

/// The rectangles of a full-screen flexbox, as (left, top, width, height).
fn screen(flexbox: &Flexbox, screen: (usize, usize)) -> Vec<(usize, usize, usize, usize)> {
    let layout = flexbox
        .try_generate_layout(XY::new(screen.0, screen.1))
        .expect("a screen is measurable");
    layout
        .iter()
        .enumerate()
        .map(|(index, placed)| {
            assert_eq!(placed.element, index);
            (
                placed.position.top_left.x,
                placed.position.top_left.y,
                placed.position.size.x,
                placed.position.size.y,
            )
        })
        .collect()
}

#[test]
fn test_justify_content_flexstart_single_item() {
    let size: (usize, usize) = (20, 10);
    let mut flexbox = Flexbox::from(vec![
        item(TextView::new("Hello world!"), size),
    ]);
    flexbox.set_justify_content(JustifyContent::FlexStart);
    assert_eq!(
        screen(&flexbox, size),
        vec![(0, 0, 12, 1)]
    );
}

#[test]
fn test_justify_content_flexend_single_item() {
    let size: (usize, usize) = (20, 10);
    let mut flexbox = Flexbox::from(vec![
        item(TextView::new("Hello world!"), size),
    ]);
    flexbox.set_justify_content(JustifyContent::FlexEnd);
    assert_eq!(
        screen(&flexbox, size),
        vec![(8, 0, 12, 1)]
    );
}

#[test]
fn test_justify_content_center_single_item() {
    let size: (usize, usize) = (20, 10);
    let mut flexbox = Flexbox::from(vec![
        item(TextView::new("Hello world!"), size),
    ]);
    flexbox.set_justify_content(JustifyContent::Center);
    assert_eq!(
        screen(&flexbox, size),
        vec![(4, 0, 12, 1)]
    );
}

#[test]
fn test_justify_content_space_between_single_item() {
    let size: (usize, usize) = (20, 10);
    let mut flexbox = Flexbox::from(vec![
        item(TextView::new("Hello world!"), size),
    ]);
    flexbox.set_justify_content(JustifyContent::SpaceBetween);
    assert_eq!(
        screen(&flexbox, size),
        vec![(0, 0, 12, 1)]
    );
}

#[test]
fn test_justify_content_space_around_single_item() {
    let size: (usize, usize) = (20, 10);
    let mut flexbox = Flexbox::from(vec![
        item(TextView::new("Hello world!"), size),
    ]);
    flexbox.set_justify_content(JustifyContent::SpaceAround);
    assert_eq!(
        screen(&flexbox, size),
        vec![(4, 0, 12, 1)]
    );
}

#[test]
fn test_justify_content_space_evenly_single_item() {
    let size: (usize, usize) = (20, 10);
    let mut flexbox = Flexbox::from(vec![
        item(TextView::new("Hello world!"), size),
    ]);
    flexbox.set_justify_content(JustifyContent::SpaceEvenly);
    assert_eq!(
        screen(&flexbox, size),
        vec![(4, 0, 12, 1)]
    );
}

#[test]
fn test_justify_content_flexstart_multiple_items() {
    let size: (usize, usize) = (20, 10);
    let mut flexbox = Flexbox::from(vec![
        item(TextView::new("Ape"), size),
        item(TextView::new("Bat"), size),
        item(TextView::new("Cat"), size),
    ]);
    flexbox.set_justify_content(JustifyContent::FlexStart);
    assert_eq!(
        screen(&flexbox, size),
        vec![(0, 0, 3, 1), (3, 0, 3, 1), (6, 0, 3, 1)]
    );
}

#[test]
fn test_justify_content_flexend_multiple_items() {
    let size: (usize, usize) = (20, 10);
    let mut flexbox = Flexbox::from(vec![
        item(TextView::new("Ape"), size),
        item(TextView::new("Bat"), size),
        item(TextView::new("Cat"), size),
    ]);
    flexbox.set_justify_content(JustifyContent::FlexEnd);
    assert_eq!(
        screen(&flexbox, size),
        vec![(11, 0, 3, 1), (14, 0, 3, 1), (17, 0, 3, 1)]
    );
}

#[test]
fn test_justify_content_center_multiple_items() {
    let size: (usize, usize) = (20, 10);
    let mut flexbox = Flexbox::from(vec![
        item(TextView::new("Ape"), size),
        item(TextView::new("Bat"), size),
        item(TextView::new("Cat"), size),
    ]);
    flexbox.set_justify_content(JustifyContent::Center);
    assert_eq!(
        screen(&flexbox, size),
        vec![(5, 0, 3, 1), (8, 0, 3, 1), (11, 0, 3, 1)]
    );
}

#[test]
fn test_justify_content_space_between_multiple_items() {
    let size: (usize, usize) = (20, 10);
    let mut flexbox = Flexbox::from(vec![
        item(TextView::new("Ape"), size),
        item(TextView::new("Bat"), size),
        item(TextView::new("Cat"), size),
    ]);
    flexbox.set_justify_content(JustifyContent::SpaceBetween);
    assert_eq!(
        screen(&flexbox, size),
        vec![(0, 0, 3, 1), (8, 0, 3, 1), (17, 0, 3, 1)]
    );
}

#[test]
fn test_justify_content_space_around_multiple_items() {
    let size: (usize, usize) = (20, 10);
    let mut flexbox = Flexbox::from(vec![
        item(TextView::new("Ape"), size),
        item(TextView::new("Bat"), size),
        item(TextView::new("Cat"), size),
    ]);
    flexbox.set_justify_content(JustifyContent::SpaceAround);
    assert_eq!(
        screen(&flexbox, size),
        vec![(1, 0, 3, 1), (8, 0, 3, 1), (15, 0, 3, 1)]
    );
}

#[test]
fn test_justify_content_space_evenly_multiple_items() {
    let size: (usize, usize) = (20, 10);
    let mut flexbox = Flexbox::from(vec![
        item(TextView::new("Ape"), size),
        item(TextView::new("Bat"), size),
        item(TextView::new("Cat"), size),
    ]);
    flexbox.set_justify_content(JustifyContent::SpaceEvenly);
    assert_eq!(
        screen(&flexbox, size),
        vec![(2, 0, 3, 1), (8, 0, 3, 1), (14, 0, 3, 1)]
    );
}

#[test]
fn test_align_items_flexstart() {
    let size: (usize, usize) = (20, 10);
    let mut flexbox = Flexbox::from(vec![
        item(Panel::new(TextView::new("Ape")), size),
        item(Panel::new(TextView::new("Bat\nCat")), size),
        item(Panel::new(TextView::new("Dog\nEwe\nFrog")), size),
    ]);
    flexbox.set_align_items(AlignItems::FlexStart);
    assert_eq!(
        screen(&flexbox, size),
        vec![(0, 0, 5, 3), (5, 0, 5, 4), (10, 0, 6, 5)]
    );
}

#[test]
fn test_align_items_flexend() {
    let size: (usize, usize) = (20, 10);
    let mut flexbox = Flexbox::from(vec![
        item(Panel::new(TextView::new("Ape")), size),
        item(Panel::new(TextView::new("Bat\nCat")), size),
        item(Panel::new(TextView::new("Dog\nEwe\nFrog")), size),
    ]);
    flexbox.set_align_items(AlignItems::FlexEnd);
    assert_eq!(
        screen(&flexbox, size),
        vec![(0, 2, 5, 3), (5, 1, 5, 4), (10, 0, 6, 5)]
    );
}

#[test]
fn test_align_items_center() {
    let size: (usize, usize) = (20, 10);
    let mut flexbox = Flexbox::from(vec![
        item(Panel::new(TextView::new("Ape")), size),
        item(Panel::new(TextView::new("Bat\nCat")), size),
        item(Panel::new(TextView::new("Dog\nEwe\nFrog")), size),
    ]);
    flexbox.set_align_items(AlignItems::Center);
    assert_eq!(
        screen(&flexbox, size),
        vec![(0, 1, 5, 3), (5, 0, 5, 4), (10, 0, 6, 5)]
    );
}

#[test]
fn test_align_items_stretch() {
    let size: (usize, usize) = (20, 10);
    let mut flexbox = Flexbox::from(vec![
        item(Panel::new(TextView::new("Ape")), size),
        item(Panel::new(TextView::new("Bat\nCat")), size),
        item(Panel::new(TextView::new("Dog\nEwe\nFrog")), size),
    ]);
    flexbox.set_align_items(AlignItems::Stretch);
    assert_eq!(
        screen(&flexbox, size),
        vec![(0, 0, 5, 5), (5, 0, 5, 5), (10, 0, 6, 5)]
    );
}

#[test]
fn test_align_content_flexstart() {
    let size: (usize, usize) = (20, 10);
    let mut flexbox = Flexbox::from(vec![
        item(TextView::new("|Ape|"), size),
        item(TextView::new("|Bat|"), size),
        item(TextView::new("|Cat|"), size),
        item(TextView::new("|Dog|"), size),
        item(TextView::new("|Elk|"), size),
        item(TextView::new("|Fly|"), size),
        item(TextView::new("|Gnu|"), size),
    ]);
    flexbox.set_flex_wrap(FlexWrap::Wrap);
    flexbox.set_align_content(AlignContent::FlexStart);
    assert_eq!(
        screen(&flexbox, size),
        vec![(0, 0, 5, 1), (5, 0, 5, 1), (10, 0, 5, 1), (15, 0, 5, 1), (0, 1, 5, 1), (5, 1, 5, 1), (10, 1, 5, 1)]
    );
}

#[test]
fn test_align_content_flexend() {
    let size: (usize, usize) = (20, 10);
    let mut flexbox = Flexbox::from(vec![
        item(TextView::new("|Ape|"), size),
        item(TextView::new("|Bat|"), size),
        item(TextView::new("|Cat|"), size),
        item(TextView::new("|Dog|"), size),
        item(TextView::new("|Elk|"), size),
        item(TextView::new("|Fly|"), size),
        item(TextView::new("|Gnu|"), size),
    ]);
    flexbox.set_flex_wrap(FlexWrap::Wrap);
    flexbox.set_align_content(AlignContent::FlexEnd);
    assert_eq!(
        screen(&flexbox, size),
        vec![(0, 8, 5, 1), (5, 8, 5, 1), (10, 8, 5, 1), (15, 8, 5, 1), (0, 9, 5, 1), (5, 9, 5, 1), (10, 9, 5, 1)]
    );
}

#[test]
fn test_align_content_stretch() {
    let size: (usize, usize) = (20, 10);
    let mut flexbox = Flexbox::from(vec![
        item(TextView::new("|Ape|"), size),
        item(TextView::new("|Bat|"), size),
        item(TextView::new("|Cat|"), size),
        item(TextView::new("|Dog|"), size),
        item(TextView::new("|Elk|"), size),
        item(TextView::new("|Fly|"), size),
        item(TextView::new("|Gnu|"), size),
    ]);
    flexbox.set_flex_wrap(FlexWrap::Wrap);
    flexbox.set_align_content(AlignContent::Stretch);
    assert_eq!(
        screen(&flexbox, size),
        vec![(0, 0, 5, 1), (5, 0, 5, 1), (10, 0, 5, 1), (15, 0, 5, 1), (0, 5, 5, 1), (5, 5, 5, 1), (10, 5, 5, 1)]
    );
}

#[test]
fn test_align_content_center() {
    let size: (usize, usize) = (20, 10);
    let mut flexbox = Flexbox::from(vec![
        item(TextView::new("|Ape|"), size),
        item(TextView::new("|Bat|"), size),
        item(TextView::new("|Cat|"), size),
        item(TextView::new("|Dog|"), size),
        item(TextView::new("|Elk|"), size),
        item(TextView::new("|Fly|"), size),
        item(TextView::new("|Gnu|"), size),
    ]);
    flexbox.set_flex_wrap(FlexWrap::Wrap);
    flexbox.set_align_content(AlignContent::Center);
    assert_eq!(
        screen(&flexbox, size),
        vec![(0, 4, 5, 1), (5, 4, 5, 1), (10, 4, 5, 1), (15, 4, 5, 1), (0, 5, 5, 1), (5, 5, 5, 1), (10, 5, 5, 1)]
    );
}

#[test]
fn test_align_content_space_between() {
    let size: (usize, usize) = (20, 10);
    let mut flexbox = Flexbox::from(vec![
        item(TextView::new("|Ape|"), size),
        item(TextView::new("|Bat|"), size),
        item(TextView::new("|Cat|"), size),
        item(TextView::new("|Dog|"), size),
        item(TextView::new("|Elk|"), size),
        item(TextView::new("|Fly|"), size),
        item(TextView::new("|Gnu|"), size),
    ]);
    flexbox.set_flex_wrap(FlexWrap::Wrap);
    flexbox.set_align_content(AlignContent::SpaceBetween);
    assert_eq!(
        screen(&flexbox, size),
        vec![(0, 0, 5, 1), (5, 0, 5, 1), (10, 0, 5, 1), (15, 0, 5, 1), (0, 9, 5, 1), (5, 9, 5, 1), (10, 9, 5, 1)]
    );
}

#[test]
fn test_align_content_space_around() {
    let size: (usize, usize) = (20, 10);
    let mut flexbox = Flexbox::from(vec![
        item(TextView::new("|Ape|"), size),
        item(TextView::new("|Bat|"), size),
        item(TextView::new("|Cat|"), size),
        item(TextView::new("|Dog|"), size),
        item(TextView::new("|Elk|"), size),
        item(TextView::new("|Fly|"), size),
        item(TextView::new("|Gnu|"), size),
    ]);
    flexbox.set_flex_wrap(FlexWrap::Wrap);
    flexbox.set_align_content(AlignContent::SpaceAround);
    assert_eq!(
        screen(&flexbox, size),
        vec![(0, 2, 5, 1), (5, 2, 5, 1), (10, 2, 5, 1), (15, 2, 5, 1), (0, 7, 5, 1), (5, 7, 5, 1), (10, 7, 5, 1)]
    );
}

#[test]
fn test_justify_content_flexstart_single_item_column() {
    let size: (usize, usize) = (20, 3);
    let mut flexbox = Flexbox::from(vec![
        item(TextView::new("Hello world!"), size),
    ]);
    flexbox.set_flex_direction(FlexDirection::Column);
    flexbox.set_justify_content(JustifyContent::FlexStart);
    assert_eq!(
        screen(&flexbox, size),
        vec![(0, 0, 12, 1)]
    );
}

#[test]
fn test_justify_content_flexend_single_item_column() {
    let size: (usize, usize) = (20, 3);
    let mut flexbox = Flexbox::from(vec![
        item(TextView::new("Hello world!"), size),
    ]);
    flexbox.set_flex_direction(FlexDirection::Column);
    flexbox.set_justify_content(JustifyContent::FlexEnd);
    assert_eq!(
        screen(&flexbox, size),
        vec![(0, 2, 12, 1)]
    );
}

#[test]
fn test_justify_content_center_single_item_column() {
    let size: (usize, usize) = (20, 5);
    let mut flexbox = Flexbox::from(vec![
        item(TextView::new("Hello world!"), size),
    ]);
    flexbox.set_flex_direction(FlexDirection::Column);
    flexbox.set_justify_content(JustifyContent::Center);
    assert_eq!(
        screen(&flexbox, size),
        vec![(0, 2, 12, 1)]
    );
}

#[test]
fn test_justify_content_space_between_single_item_column() {
    let size: (usize, usize) = (20, 5);
    let mut flexbox = Flexbox::from(vec![
        item(TextView::new("Hello world!"), size),
    ]);
    flexbox.set_flex_direction(FlexDirection::Column);
    flexbox.set_justify_content(JustifyContent::SpaceBetween);
    assert_eq!(
        screen(&flexbox, size),
        vec![(0, 0, 12, 1)]
    );
}

#[test]
fn test_justify_content_space_around_single_item_column() {
    let size: (usize, usize) = (20, 5);
    let mut flexbox = Flexbox::from(vec![
        item(TextView::new("Hello world!"), size),
    ]);
    flexbox.set_flex_direction(FlexDirection::Column);
    flexbox.set_justify_content(JustifyContent::SpaceAround);
    assert_eq!(
        screen(&flexbox, size),
        vec![(0, 2, 12, 1)]
    );
}

#[test]
fn test_justify_content_space_evenly_single_item_column() {
    let size: (usize, usize) = (20, 5);
    let mut flexbox = Flexbox::from(vec![
        item(TextView::new("Hello world!"), size),
    ]);
    flexbox.set_flex_direction(FlexDirection::Column);
    flexbox.set_justify_content(JustifyContent::SpaceEvenly);
    assert_eq!(
        screen(&flexbox, size),
        vec![(0, 2, 12, 1)]
    );
}

#[test]
fn test_justify_content_flexstart_multiple_items_column() {
    let size: (usize, usize) = (20, 5);
    let mut flexbox = Flexbox::from(vec![
        item(TextView::new("Ape"), size),
        item(TextView::new("Bat"), size),
        item(TextView::new("Cat"), size),
    ]);
    flexbox.set_flex_direction(FlexDirection::Column);
    flexbox.set_justify_content(JustifyContent::FlexStart);
    assert_eq!(
        screen(&flexbox, size),
        vec![(0, 0, 3, 1), (0, 1, 3, 1), (0, 2, 3, 1)]
    );
}

#[test]
fn test_justify_content_flexend_multiple_items_column() {
    let size: (usize, usize) = (20, 5);
    let mut flexbox = Flexbox::from(vec![
        item(TextView::new("Ape"), size),
        item(TextView::new("Bat"), size),
        item(TextView::new("Cat"), size),
    ]);
    flexbox.set_flex_direction(FlexDirection::Column);
    flexbox.set_justify_content(JustifyContent::FlexEnd);
    assert_eq!(
        screen(&flexbox, size),
        vec![(0, 2, 3, 1), (0, 3, 3, 1), (0, 4, 3, 1)]
    );
}

#[test]
fn test_justify_content_center_multiple_items_column() {
    let size: (usize, usize) = (20, 5);
    let mut flexbox = Flexbox::from(vec![
        item(TextView::new("Ape"), size),
        item(TextView::new("Bat"), size),
        item(TextView::new("Cat"), size),
    ]);
    flexbox.set_flex_direction(FlexDirection::Column);
    flexbox.set_justify_content(JustifyContent::Center);
    assert_eq!(
        screen(&flexbox, size),
        vec![(0, 1, 3, 1), (0, 2, 3, 1), (0, 3, 3, 1)]
    );
}

#[test]
fn test_justify_content_space_between_multiple_items_column() {
    let size: (usize, usize) = (20, 7);
    let mut flexbox = Flexbox::from(vec![
        item(TextView::new("Ape"), size),
        item(TextView::new("Bat"), size),
        item(TextView::new("Cat"), size),
    ]);
    flexbox.set_flex_direction(FlexDirection::Column);
    flexbox.set_justify_content(JustifyContent::SpaceBetween);
    assert_eq!(
        screen(&flexbox, size),
        vec![(0, 0, 3, 1), (0, 3, 3, 1), (0, 6, 3, 1)]
    );
}

#[test]
fn test_justify_content_space_around_multiple_items_column() {
    let size: (usize, usize) = (20, 9);
    let mut flexbox = Flexbox::from(vec![
        item(TextView::new("Ape"), size),
        item(TextView::new("Bat"), size),
        item(TextView::new("Cat"), size),
    ]);
    flexbox.set_flex_direction(FlexDirection::Column);
    flexbox.set_justify_content(JustifyContent::SpaceAround);
    assert_eq!(
        screen(&flexbox, size),
        vec![(0, 1, 3, 1), (0, 4, 3, 1), (0, 7, 3, 1)]
    );
}

#[test]
fn test_justify_content_space_evenly_multiple_items_column() {
    let size: (usize, usize) = (20, 11);
    let mut flexbox = Flexbox::from(vec![
        item(TextView::new("Ape"), size),
        item(TextView::new("Bat"), size),
        item(TextView::new("Cat"), size),
    ]);
    flexbox.set_flex_direction(FlexDirection::Column);
    flexbox.set_justify_content(JustifyContent::SpaceEvenly);
    assert_eq!(
        screen(&flexbox, size),
        vec![(0, 2, 3, 1), (0, 5, 3, 1), (0, 8, 3, 1)]
    );
}

#[test]
fn test_align_items_flexstart_column() {
    let size: (usize, usize) = (20, 5);
    let mut flexbox = Flexbox::from(vec![
        item(TextView::new("Ape"), size),
        item(TextView::new("Bat Cat"), size),
        item(TextView::new("Dog Ewe Fly"), size),
    ]);
    flexbox.set_align_items(AlignItems::FlexStart);
    flexbox.set_flex_direction(FlexDirection::Column);
    assert_eq!(
        screen(&flexbox, size),
        vec![(0, 0, 3, 1), (0, 1, 7, 1), (0, 2, 11, 1)]
    );
}

#[test]
fn test_align_items_flexend_column() {
    let size: (usize, usize) = (20, 5);
    let mut flexbox = Flexbox::from(vec![
        item(TextView::new("Ape"), size),
        item(TextView::new("Bat Cat"), size),
        item(TextView::new("Dog Ewe Fly"), size),
    ]);
    flexbox.set_align_items(AlignItems::FlexEnd);
    flexbox.set_flex_direction(FlexDirection::Column);
    assert_eq!(
        screen(&flexbox, size),
        vec![(8, 0, 3, 1), (4, 1, 7, 1), (0, 2, 11, 1)]
    );
}

#[test]
fn test_align_items_stretch_column() {
    let size: (usize, usize) = (20, 10);
    let mut flexbox = Flexbox::from(vec![
        item(Panel::new(TextView::new("Ape")), size),
        item(Panel::new(TextView::new("Bat Cat")), size),
        item(Panel::new(TextView::new("Dog Ewe Fly")), size),
    ]);
    flexbox.set_align_items(AlignItems::Stretch);
    flexbox.set_flex_direction(FlexDirection::Column);
    assert_eq!(
        screen(&flexbox, size),
        vec![(0, 0, 13, 3), (0, 3, 13, 3), (0, 6, 13, 3)]
    );
}

#[test]
fn test_align_items_center_column() {
    let size: (usize, usize) = (20, 10);
    let mut flexbox = Flexbox::from(vec![
        item(Panel::new(TextView::new("Ape")), size),
        item(Panel::new(TextView::new("Bat Cat")), size),
        item(Panel::new(TextView::new("Dog Ewe Fly")), size),
    ]);
    flexbox.set_align_items(AlignItems::Center);
    flexbox.set_flex_direction(FlexDirection::Column);
    assert_eq!(
        screen(&flexbox, size),
        vec![(4, 0, 5, 3), (2, 3, 9, 3), (0, 6, 13, 3)]
    );
}

#[test]
fn test_align_content_flexstart_conlumn() {
    let size: (usize, usize) = (20, 3);
    let mut flexbox = Flexbox::from(vec![
        item(TextView::new("|Ape|"), size),
        item(TextView::new("|Bat|"), size),
        item(TextView::new("|Cat|"), size),
        item(TextView::new("|Dog|"), size),
        item(TextView::new("|Elk|"), size),
    ]);
    flexbox.set_flex_wrap(FlexWrap::Wrap);
    flexbox.set_flex_direction(FlexDirection::Column);
    flexbox.set_align_content(AlignContent::FlexStart);
    assert_eq!(
        screen(&flexbox, size),
        vec![(0, 0, 5, 1), (0, 1, 5, 1), (0, 2, 5, 1), (5, 0, 5, 1), (5, 1, 5, 1)]
    );
}

#[test]
fn test_align_content_flexend_conlumn() {
    let size: (usize, usize) = (20, 3);
    let mut flexbox = Flexbox::from(vec![
        item(TextView::new("|Ape|"), size),
        item(TextView::new("|Bat|"), size),
        item(TextView::new("|Cat|"), size),
        item(TextView::new("|Dog|"), size),
        item(TextView::new("|Elk|"), size),
    ]);
    flexbox.set_flex_wrap(FlexWrap::Wrap);
    flexbox.set_flex_direction(FlexDirection::Column);
    flexbox.set_align_content(AlignContent::FlexEnd);
    assert_eq!(
        screen(&flexbox, size),
        vec![(10, 0, 5, 1), (10, 1, 5, 1), (10, 2, 5, 1), (15, 0, 5, 1), (15, 1, 5, 1)]
    );
}

#[test]
fn test_align_content_center_conlumn() {
    let size: (usize, usize) = (20, 3);
    let mut flexbox = Flexbox::from(vec![
        item(TextView::new("|Ape|"), size),
        item(TextView::new("|Bat|"), size),
        item(TextView::new("|Cat|"), size),
        item(TextView::new("|Dog|"), size),
        item(TextView::new("|Elk|"), size),
    ]);
    flexbox.set_flex_wrap(FlexWrap::Wrap);
    flexbox.set_flex_direction(FlexDirection::Column);
    flexbox.set_align_content(AlignContent::Center);
    assert_eq!(
        screen(&flexbox, size),
        vec![(5, 0, 5, 1), (5, 1, 5, 1), (5, 2, 5, 1), (10, 0, 5, 1), (10, 1, 5, 1)]
    );
}

#[test]
fn test_align_content_stretch_conlumn() {
    let size: (usize, usize) = (20, 3);
    let mut flexbox = Flexbox::from(vec![
        item(TextView::new("|Ape|"), size),
        item(TextView::new("|Bat|"), size),
        item(TextView::new("|Cat|"), size),
        item(TextView::new("|Dog|"), size),
        item(TextView::new("|Elk|"), size),
    ]);
    flexbox.set_flex_wrap(FlexWrap::Wrap);
    flexbox.set_flex_direction(FlexDirection::Column);
    flexbox.set_align_content(AlignContent::Stretch);
    assert_eq!(
        screen(&flexbox, size),
        vec![(0, 0, 5, 1), (0, 1, 5, 1), (0, 2, 5, 1), (10, 0, 5, 1), (10, 1, 5, 1)]
    );
}

#[test]
fn test_align_content_space_between_conlumn() {
    let size: (usize, usize) = (20, 3);
    let mut flexbox = Flexbox::from(vec![
        item(TextView::new("|Ape|"), size),
        item(TextView::new("|Bat|"), size),
        item(TextView::new("|Cat|"), size),
        item(TextView::new("|Dog|"), size),
        item(TextView::new("|Elk|"), size),
    ]);
    flexbox.set_flex_wrap(FlexWrap::Wrap);
    flexbox.set_flex_direction(FlexDirection::Column);
    flexbox.set_align_content(AlignContent::SpaceBetween);
    assert_eq!(
        screen(&flexbox, size),
        vec![(0, 0, 5, 1), (0, 1, 5, 1), (0, 2, 5, 1), (15, 0, 5, 1), (15, 1, 5, 1)]
    );
}

#[test]
fn test_align_content_space_around_conlumn() {
    let size: (usize, usize) = (18, 3);
    let mut flexbox = Flexbox::from(vec![
        item(TextView::new("|Ape|"), size),
        item(TextView::new("|Bat|"), size),
        item(TextView::new("|Cat|"), size),
        item(TextView::new("|Dog|"), size),
        item(TextView::new("|Elk|"), size),
    ]);
    flexbox.set_flex_wrap(FlexWrap::Wrap);
    flexbox.set_flex_direction(FlexDirection::Column);
    flexbox.set_align_content(AlignContent::SpaceAround);
    assert_eq!(
        screen(&flexbox, size),
        vec![(2, 0, 5, 1), (2, 1, 5, 1), (2, 2, 5, 1), (11, 0, 5, 1), (11, 1, 5, 1)]
    );
}

#[test]
fn test_main_axis_gap() {
    let size: (usize, usize) = (20, 2);
    let mut flexbox = Flexbox::from(vec![
        item(TextView::new("|Ape|"), size),
        item(TextView::new("|Bat|"), size),
        item(TextView::new("|Cat|"), size),
    ]);
    flexbox.set_main_axis_gap(2);
    assert_eq!(
        screen(&flexbox, size),
        vec![(0, 0, 5, 1), (7, 0, 5, 1), (14, 0, 5, 1)]
    );
}

#[test]
fn test_main_axis_gap_justify_center() {
    let size: (usize, usize) = (25, 2);
    let mut flexbox = Flexbox::from(vec![
        item(TextView::new("|Ape|"), size),
        item(TextView::new("|Bat|"), size),
        item(TextView::new("|Cat|"), size),
    ]);
    flexbox.set_justify_content(JustifyContent::Center);
    flexbox.set_main_axis_gap(2);
    assert_eq!(
        screen(&flexbox, size),
        vec![(3, 0, 5, 1), (10, 0, 5, 1), (17, 0, 5, 1)]
    );
}

#[test]
fn test_main_axis_gap_justify_space_evenly() {
    let size: (usize, usize) = (31, 2);
    let mut flexbox = Flexbox::from(vec![
        item(TextView::new("|Ape|"), size),
        item(TextView::new("|Bat|"), size),
        item(TextView::new("|Cat|"), size),
    ]);
    flexbox.set_justify_content(JustifyContent::SpaceEvenly);
    flexbox.set_main_axis_gap(2);
    assert_eq!(
        screen(&flexbox, size),
        vec![(3, 0, 5, 1), (13, 0, 5, 1), (23, 0, 5, 1)]
    );
}
