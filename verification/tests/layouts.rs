use cursive_flexbox::{
    global_to_view_coordinates, important_area, FlexItem, Flexbox, Layout, PlacedElement, Rect, XY,
};

fn placed(element: char, left: usize, top: usize, width: usize, height: usize) -> PlacedElement<char> {
    PlacedElement {
        element,
        position: Rect::new(XY::new(left, top), XY::new(width, height)),
    }
}

fn found(layout: &Layout<char>, x: usize, y: usize) -> Option<char> {
    layout.element_at(XY::new(x, y)).map(|placed| placed.element)
}

#[test]
fn a_rectangle_keeps_its_size_when_it_is_moved() {
    let mut rect = Rect::new(XY::new(1, 2), XY::new(3, 4));
    rect.shift(XY::new(10, 20));
    assert_eq!(rect.top_left, XY::new(11, 22));
    assert_eq!(rect.size, XY::new(3, 4));
}

#[test]
fn a_window_holds_the_cells_from_its_first_to_its_last() {
    let rect = Rect::new(XY::new(2, 3), XY::new(4, 2));
    assert!(rect.contains(XY::new(2, 3)));
    assert!(rect.contains(XY::new(5, 4)));
    assert!(!rect.contains(XY::new(6, 4)));
    assert!(!rect.contains(XY::new(5, 5)));
    assert!(!rect.contains(XY::new(1, 3)));
    assert!(!rect.contains(XY::new(2, 2)));
}

#[test]
fn a_window_is_at_least_one_cell_wide_and_high() {
    let rect = Rect::new(XY::new(2, 3), XY::new(0, 0));
    assert!(rect.contains(XY::new(2, 3)));
    assert!(!rect.contains(XY::new(3, 3)));
    assert!(!rect.contains(XY::new(2, 4)));
    let flat = Rect::new(XY::new(0, 0), XY::new(3, 0));
    assert!(flat.contains(XY::new(2, 0)));
    assert!(!flat.contains(XY::new(2, 1)));
}

#[test]
fn element_at_finds_the_first_element_that_holds_the_position() {
    let layout = Layout {
        elements: vec![
            placed('a', 0, 0, 5, 1),
            placed('b', 5, 0, 5, 2),
            placed('c', 3, 0, 4, 4),
        ],
    };
    assert_eq!(found(&layout, 0, 0), Some('a'));
    assert_eq!(found(&layout, 4, 0), Some('a'));
    assert_eq!(found(&layout, 5, 0), Some('b'));
    assert_eq!(found(&layout, 9, 1), Some('b'));
    assert_eq!(found(&layout, 4, 1), Some('c'));
    assert_eq!(found(&layout, 6, 3), Some('c'));
    assert_eq!(found(&layout, 2, 1), None);
    assert_eq!(found(&layout, 10, 0), None);
    let nothing: Layout<char> = Layout { elements: vec![] };
    assert_eq!(found(&nothing, 0, 0), None);
}

#[test]
fn element_at_finds_the_items_of_a_flexbox() {
    let mut flexbox = Flexbox::new();
    flexbox.push(FlexItem::new(XY::new(5, 1)));
    flexbox.push(FlexItem::new(XY::new(7, 1)));
    let layout = flexbox.try_generate_layout(XY::new(18, 3)).unwrap();
    let at = |x, y| layout.element_at(XY::new(x, y)).map(|placed| placed.element);
    assert_eq!(at(0, 0), Some(0));
    assert_eq!(at(4, 0), Some(0));
    assert_eq!(at(5, 0), Some(1));
    assert_eq!(at(11, 0), Some(1));
    assert_eq!(at(12, 0), None);
    assert_eq!(at(0, 1), None);
}

#[test]
fn iter_walks_the_elements_in_their_order() {
    let layout = Layout {
        elements: vec![placed('x', 0, 0, 1, 1), placed('y', 1, 0, 1, 1)],
    };
    let names: Vec<char> = layout.iter().map(|placed| placed.element).collect();
    assert_eq!(names, vec!['x', 'y']);
}

#[test]
fn size_reaches_one_past_the_far_edges() {
    let layout = Layout {
        elements: vec![placed('a', 2, 1, 5, 3), placed('b', 0, 0, 3, 10)],
    };
    // The first element ends in column 6 and row 3, the second in row 9.
    assert_eq!(layout.size(), XY::new(7, 10));
    let nothing: Layout<char> = Layout { elements: vec![] };
    assert_eq!(nothing.size(), XY::new(0, 0));
}

#[test]
fn size_is_raised_only_by_an_edge_that_lies_beyond_it() {
    // An element in the first row has its far edge in row 0, which is not
    // beyond a height of zero.
    let layout = Layout {
        elements: vec![placed('a', 0, 0, 5, 1)],
    };
    assert_eq!(layout.size(), XY::new(5, 0));
    // The second element ends in column 5, which is not beyond a width of 5.
    let layout = Layout {
        elements: vec![placed('a', 0, 0, 5, 1), placed('b', 5, 0, 1, 3)],
    };
    assert_eq!(layout.size(), XY::new(5, 3));
    let layout = Layout {
        elements: vec![placed('a', 0, 0, 5, 1), placed('b', 5, 0, 5, 3)],
    };
    assert_eq!(layout.size(), XY::new(10, 3));
}

#[test]
fn view_coordinates_count_from_the_corner_of_the_view() {
    assert_eq!(
        global_to_view_coordinates(XY::new(12, 7), XY::new(10, 3)),
        XY::new(2, 4)
    );
    assert_eq!(
        global_to_view_coordinates(XY::new(10, 3), XY::new(10, 3)),
        XY::new(0, 0)
    );
}

#[test]
fn the_important_area_is_the_place_of_the_focused_element() {
    let first_cell = Rect::new(XY::new(0, 0), XY::new(1, 1));
    let layout = Some(Layout {
        elements: vec![placed('a', 0, 0, 5, 1), placed('b', 5, 2, 3, 4)],
    });
    assert_eq!(
        important_area(&layout, Some(1)),
        Rect::new(XY::new(5, 2), XY::new(3, 4))
    );
    assert_eq!(
        important_area(&layout, Some(0)),
        Rect::new(XY::new(0, 0), XY::new(5, 1))
    );
    assert_eq!(important_area(&layout, None), first_cell);
    let nothing: Option<Layout<char>> = None;
    assert_eq!(important_area(&nothing, Some(1)), first_cell);
    assert_eq!(important_area(&nothing, None), first_cell);
}

#[test]
fn a_window_at_the_edge_of_the_numbers_is_not_bounded() {
    assert!(Rect::new(XY::new(0, 0), XY::new(0, 0)).is_bounded());
    assert!(Rect::new(XY::new(7, 7), XY::new(usize::MAX - 7, 1)).is_bounded());
    assert!(!Rect::new(XY::new(8, 7), XY::new(usize::MAX - 7, 1)).is_bounded());
    assert!(!Rect::new(XY::new(usize::MAX, 0), XY::new(0, 0)).is_bounded());
    assert!(!Rect::new(XY::new(0, 2), XY::new(1, usize::MAX)).is_bounded());
    let layout = Layout {
        elements: vec![placed('a', 0, 0, 5, 1), placed('b', usize::MAX, 0, 1, 1)],
    };
    assert!(!layout.is_bounded());
    let layout = Layout {
        elements: vec![placed('a', 0, 0, 5, 1)],
    };
    assert!(layout.is_bounded());
}
