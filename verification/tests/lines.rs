use cursive_flexbox::share::next_share;
use cursive_flexbox::{
    AlignContent, FlexBoxOptions, FlexDirection, FlexItem, FlexWrap, FlexboxError, FlexboxLayout,
    JustifyContent, MainAxis, Rect, XY,
};

fn items_of(widths: &[usize]) -> Vec<FlexItem> {
    widths
        .iter()
        .map(|width| FlexItem::new(XY::new(*width, 1)))
        .collect()
}

fn wrapping() -> FlexBoxOptions {
    FlexBoxOptions {
        wrap: FlexWrap::Wrap,
        ..FlexBoxOptions::default()
    }
}

fn frame(width: usize, height: usize, options: FlexBoxOptions) -> FlexboxLayout {
    FlexboxLayout::generate(&Vec::new(), width, height, options)
}

#[test]
fn a_running_share_is_what_is_left_over_the_shares_to_come() {
    assert_eq!(next_share(11, 6), 1);
    assert_eq!(next_share(10, 5), 2);
    assert_eq!(next_share(4, 1), 4);
    assert_eq!(next_share(0, 3), 0);
    assert_eq!(next_share(7, 0), 0);
}

#[test]
fn a_new_axis_is_empty_and_has_the_whole_extent_free() {
    let layout = frame(20, 10, wrapping());
    let axis = MainAxis::new(&layout, 3);
    assert_eq!(axis.first, 3);
    assert_eq!(axis.number_of_items(), 0);
    assert_eq!(axis.free_space, 20);
    assert_eq!(axis.used_space, 0);
    assert_eq!(axis.combined_grow_factor(), 0);
    assert_eq!(axis.cross_axis_size(&layout), 0);
    assert_eq!(axis.windows(&layout), vec![]);

    let column = FlexBoxOptions {
        direction: FlexDirection::Column,
        ..wrapping()
    };
    let layout = frame(20, 10, column);
    assert_eq!(MainAxis::new(&layout, 0).free_space, 10);
}

#[test]
fn an_axis_takes_items_until_it_is_full() {
    let options = FlexBoxOptions {
        main_axis_gap: 1,
        ..wrapping()
    };
    let layout = frame(10, 10, options);
    let mut axis = MainAxis::new(&layout, 0);
    assert_eq!(axis.add_item(FlexItem::new(XY::new(4, 1)), &layout), Ok(()));
    assert_eq!((axis.used_space, axis.free_space), (4, 6));
    assert!(axis.can_accomodate(&FlexItem::new(XY::new(5, 1)), &layout));
    assert!(!axis.can_accomodate(&FlexItem::new(XY::new(6, 1)), &layout));
    assert_eq!(
        axis.add_item(FlexItem::new(XY::new(6, 1)), &layout),
        Err(FlexboxError::AxisFull)
    );
    assert_eq!(axis.number_of_items(), 1);
    assert_eq!((axis.used_space, axis.free_space), (4, 6));
    assert_eq!(axis.add_item(FlexItem::new(XY::new(5, 3)), &layout), Ok(()));
    assert_eq!((axis.used_space, axis.free_space), (10, 0));
    assert_eq!(axis.number_of_items(), 2);
    assert_eq!(axis.cross_axis_size(&layout), 3);
    assert_eq!(
        axis.add_item(FlexItem::new(XY::new(0, 0)), &layout),
        Err(FlexboxError::AxisFull)
    );
}

#[test]
fn an_empty_axis_takes_an_item_of_any_size() {
    let layout = frame(10, 10, wrapping());
    let mut axis = MainAxis::new(&layout, 0);
    let wide = FlexItem::new(XY::new(25, 1));
    assert!(axis.can_accomodate(&wide, &layout));
    assert_eq!(axis.add_item(wide, &layout), Ok(()));
    assert_eq!((axis.used_space, axis.free_space), (25, 0));
    assert!(!axis.can_accomodate(&FlexItem::new(XY::new(1, 1)), &layout));
}

#[test]
fn without_wrap_an_axis_takes_every_item() {
    let layout = frame(10, 10, FlexBoxOptions::default());
    let mut axis = MainAxis::new(&layout, 0);
    for _ in 0..4 {
        assert_eq!(axis.add_item(FlexItem::new(XY::new(4, 1)), &layout), Ok(()));
    }
    assert_eq!(axis.number_of_items(), 4);
    assert_eq!((axis.used_space, axis.free_space), (16, 0));
}

#[test]
fn an_axis_sums_the_grow_factors_of_its_items() {
    let layout = frame(30, 10, FlexBoxOptions::default());
    let mut axis = MainAxis::new(&layout, 0);
    for grow in [0, 255, 255, 7] {
        let item = FlexItem::with_flex_grow(XY::new(1, 1), grow);
        assert_eq!(axis.add_item(item, &layout), Ok(()));
    }
    assert_eq!(axis.combined_grow_factor(), 517);
}

#[test]
fn the_windows_of_an_axis_are_local_to_it() {
    let options = FlexBoxOptions {
        justification: JustifyContent::Center,
        ..wrapping()
    };
    let layout = frame(12, 10, options);
    let mut axis = MainAxis::new(&layout, 5);
    assert_eq!(axis.add_item(FlexItem::new(XY::new(3, 2)), &layout), Ok(()));
    assert_eq!(axis.add_item(FlexItem::new(XY::new(5, 1)), &layout), Ok(()));
    assert_eq!(
        axis.windows(&layout),
        vec![
            (5, Rect::new(XY::new(2, 0), XY::new(3, 2))),
            (6, Rect::new(XY::new(5, 0), XY::new(5, 2))),
        ]
    );
}

#[test]
fn generate_packs_the_items_into_lines() {
    let content = items_of(&[5, 5, 5, 5, 5, 5, 5]);
    let layout = FlexboxLayout::generate(&content, 20, 10, wrapping());
    assert_eq!(layout.size, XY::new(20, 10));
    assert_eq!(layout.main_axis_count(), 2);
    assert_eq!(layout.main_axes[0].first, 0);
    assert_eq!(layout.main_axes[0].items, content[0..4].to_vec());
    assert_eq!(layout.main_axes[0].free_space, 0);
    assert_eq!(layout.main_axes[1].first, 4);
    assert_eq!(layout.main_axes[1].items, content[4..7].to_vec());
    assert_eq!(layout.main_axes[1].free_space, 5);
    assert_eq!(layout.flexitem_main_axis_size(&content[0]), 5);
    assert_eq!(layout.cross_axis_free_space(), 8);
    assert_eq!(layout.line_offsets(), vec![0, 1]);
}

#[test]
fn generate_without_wrap_makes_one_line_of_any_items() {
    for widths in [vec![1], vec![30, 30, 30], vec![0, 0], vec![5; 40]] {
        let content = items_of(&widths);
        let layout = FlexboxLayout::generate(&content, 20, 10, FlexBoxOptions::default());
        assert_eq!(layout.main_axis_count(), 1);
        assert_eq!(layout.main_axes[0].items, content);
    }
    let layout = FlexboxLayout::generate(&Vec::new(), 20, 10, FlexBoxOptions::default());
    assert_eq!(layout.main_axis_count(), 0);
    assert_eq!(layout.cross_axis_free_space(), 10);
    assert_eq!(layout.windows(), vec![]);
}

#[test]
fn generate_with_wrap_reverse_stacks_the_lines_backwards() {
    let content = items_of(&[6, 6, 6, 6, 6]);
    let options = FlexBoxOptions {
        wrap: FlexWrap::WrapReverse,
        axes_alignment: AlignContent::FlexEnd,
        ..FlexBoxOptions::default()
    };
    let layout = FlexboxLayout::generate(&content, 13, 10, options);
    assert_eq!(layout.main_axis_count(), 3);
    let firsts: Vec<usize> = layout.main_axes.iter().map(|axis| axis.first).collect();
    assert_eq!(firsts, vec![4, 2, 0]);
    assert_eq!(layout.line_offsets(), vec![7, 8, 9]);
    let line = Rect::new;
    assert_eq!(
        layout.windows(),
        vec![
            (4, line(XY::new(0, 7), XY::new(6, 1))),
            (2, line(XY::new(0, 8), XY::new(6, 1))),
            (3, line(XY::new(6, 8), XY::new(6, 1))),
            (0, line(XY::new(0, 9), XY::new(6, 1))),
            (1, line(XY::new(6, 9), XY::new(6, 1))),
        ]
    );
    assert_eq!(
        layout.axis_windows(1, 8),
        vec![
            (2, line(XY::new(0, 8), XY::new(6, 1))),
            (3, line(XY::new(6, 8), XY::new(6, 1))),
        ]
    );
}

#[test]
fn every_item_has_exactly_one_window() {
    let content = items_of(&[3, 9, 1, 1, 14, 2, 2, 2, 8]);
    for wrap in [FlexWrap::NoWrap, FlexWrap::Wrap, FlexWrap::WrapReverse] {
        for direction in [
            FlexDirection::Row,
            FlexDirection::RowReverse,
            FlexDirection::Column,
            FlexDirection::ColumnReverse,
        ] {
            let options = FlexBoxOptions {
                wrap,
                direction,
                ..FlexBoxOptions::default()
            };
            let layout = FlexboxLayout::generate(&content, 10, 3, options);
            let mut indices: Vec<usize> =
                layout.windows().iter().map(|window| window.0).collect();
            indices.sort();
            assert_eq!(indices, (0..content.len()).collect::<Vec<usize>>());
        }
    }
}

#[test]
fn the_free_space_across_never_goes_below_zero() {
    let content = items_of(&[5, 5, 5]);
    let options = FlexBoxOptions {
        cross_axis_gap: 4,
        ..wrapping()
    };
    // Three lines of one cell and two gaps of four take eleven cells.
    assert_eq!(
        FlexboxLayout::generate(&content, 5, 12, options).cross_axis_free_space(),
        1
    );
    assert_eq!(
        FlexboxLayout::generate(&content, 5, 11, options).cross_axis_free_space(),
        0
    );
    assert_eq!(
        FlexboxLayout::generate(&content, 5, 2, options).cross_axis_free_space(),
        0
    );
    assert_eq!(
        FlexboxLayout::generate(&content, 5, 2, options).line_offsets(),
        vec![0, 5, 10]
    );
}
