use tcwm::container::{WindowContainer, WindowPayload};
use tcwm::geometry::{Direction, WindowSplitDirection};
use tcwm::window::Color;

fn extent_along(c: &WindowContainer, p: &WindowPayload) -> i32 {
    match (c.direction, p) {
        (WindowSplitDirection::Vertical, WindowPayload::Window(w)) => w.xmax,
        (WindowSplitDirection::Vertical, WindowPayload::Container(k)) => k.width,
        (WindowSplitDirection::Horizontal, WindowPayload::Window(w)) => w.ymax,
        (WindowSplitDirection::Horizontal, WindowPayload::Container(k)) => k.height,
    }
}

fn extent_of(c: &WindowContainer) -> i32 {
    match c.direction {
        WindowSplitDirection::Vertical => c.width,
        WindowSplitDirection::Horizontal => c.height,
    }
}

/// Whether the children of every container in the tree add up to it.
fn partitioned(c: &WindowContainer) -> bool {
    let sum: i32 = c.payload.iter().map(|p| extent_along(c, p)).sum();
    sum == extent_of(c)
        && c.payload.iter().all(|p| match p {
            WindowPayload::Window(_) => true,
            WindowPayload::Container(k) => partitioned(k),
        })
}

/// The panes whose header is highlighted.
fn highlighted(c: &WindowContainer) -> Vec<u128> {
    let mut found: Vec<u128> = Vec::new();
    for p in c.payload.iter() {
        match p {
            WindowPayload::Window(w) => {
                if w.header_color == Color::StatusSelected {
                    found.push(w.id);
                }
            }
            WindowPayload::Container(k) => found.extend(highlighted(k)),
        }
    }
    found
}

fn busy_tree() -> WindowContainer {
    let mut root = WindowContainer::new_with_ids(1, 2, 120, 50);
    root.split_with_id(3);
    root.split_with_id(4);
    root.set_split_direction_with_id(WindowSplitDirection::Horizontal, 20);
    root.split_with_id(5);
    root.split_with_id(6);
    root.set_split_direction_with_id(WindowSplitDirection::Vertical, 21);
    root.split_with_id(7);
    root.change_focus(Direction::Left);
    root
}

#[test]
fn the_children_of_every_container_add_up_to_it() {
    let mut root = busy_tree();
    assert!(root.well_formed());
    assert!(partitioned(&root));
    root.resize(200, 61);
    assert!(root.well_formed());
    assert!(partitioned(&root));
    root.delete();
    assert!(root.well_formed());
    assert!(partitioned(&root));
    root.change_focus(Direction::Up);
    root.delete();
    assert!(root.well_formed());
    assert!(partitioned(&root));
}

#[test]
fn the_last_child_takes_the_rest() {
    let mut root = WindowContainer::new_with_ids(1, 2, 101, 40);
    root.split_with_id(3);
    root.split_with_id(4);
    root.split_with_id(5);
    let widths: Vec<i32> = root.payload.iter().map(|p| extent_along(&root, p)).collect();
    assert_eq!(widths, vec![25, 25, 25, 26]);
    assert!(partitioned(&root));
}

#[test]
fn the_last_child_takes_a_rest_larger_than_a_slot() {
    let mut root = WindowContainer::new_with_ids(1, 2, 38, 10);
    let mut id: u128 = 3;
    while id < 12 {
        root.split_with_id(id);
        id += 1;
    }
    let widths: Vec<i32> = root.payload.iter().map(|p| extent_along(&root, p)).collect();
    assert_eq!(widths, vec![3, 3, 3, 3, 3, 3, 3, 3, 3, 11]);
    assert!(root.well_formed());
    assert!(partitioned(&root));
}

#[test]
fn five_stacked_panes_in_24_rows() {
    let mut root = WindowContainer::new_with_ids(1, 2, 80, 24);
    root.set_split_direction_with_id(WindowSplitDirection::Horizontal, 9);
    root.split_with_id(3);
    root.split_with_id(4);
    root.split_with_id(5);
    root.split_with_id(6);
    root.resize(80, 24);
    let mut heights: Vec<i32> = Vec::new();
    let mut tops: Vec<i32> = Vec::new();
    for p in root.payload.iter() {
        match p {
            WindowPayload::Window(w) => {
                heights.push(w.ymax);
                tops.push(w.y);
                assert_eq!(w.x, 0);
                assert_eq!(w.xmax, 80);
            }
            WindowPayload::Container(_) => panic!("a container among the panes"),
        }
    }
    assert_eq!(heights, vec![4, 4, 4, 4, 8]);
    assert_eq!(tops, vec![0, 4, 8, 12, 16]);
    assert!(root.well_formed());
    assert!(partitioned(&root));
}

#[test]
fn a_split_and_a_delete_give_out_all_of_eight_columns() {
    let mut root = WindowContainer::new_with_ids(1, 2, 8, 10);
    root.split_with_id(3);
    root.split_with_id(4);
    let after_split: Vec<i32> = root.payload.iter().map(|p| extent_along(&root, p)).collect();
    assert_eq!(after_split, vec![2, 2, 4]);
    root.split_with_id(5);
    let four: Vec<i32> = root.payload.iter().map(|p| extent_along(&root, p)).collect();
    assert_eq!(four, vec![2, 2, 2, 2]);
    root.delete();
    let after_delete: Vec<i32> = root.payload.iter().map(|p| extent_along(&root, p)).collect();
    assert_eq!(after_delete, vec![2, 2, 4]);
    assert_eq!(root.focus, 2);
    assert!(root.well_formed());
    assert!(partitioned(&root));
}

#[test]
fn a_screen_too_narrow_for_its_panes() {
    let mut root = WindowContainer::new_with_ids(1, 2, 2, 10);
    root.split_with_id(3);
    root.split_with_id(4);
    let widths: Vec<i32> = root.payload.iter().map(|p| extent_along(&root, p)).collect();
    assert_eq!(widths, vec![0, 0, 2]);
    assert!(root.well_formed());
    assert!(partitioned(&root));
    root.resize(0, 0);
    assert!(root.well_formed());
    assert!(partitioned(&root));
}

#[test]
fn one_pane_is_highlighted_and_it_is_the_one_in_focus() {
    let mut root = busy_tree();
    assert_eq!(highlighted(&root), vec![root.focused_window().id]);
    let moves: [Direction; 8] = [
        Direction::Left,
        Direction::Up,
        Direction::Right,
        Direction::Down,
        Direction::Up,
        Direction::Up,
        Direction::Left,
        Direction::Left,
    ];
    for d in moves {
        root.change_focus(d);
        assert_eq!(highlighted(&root), vec![root.focused_window().id]);
        assert!(root.well_formed());
    }
    root.delete();
    assert_eq!(highlighted(&root), vec![root.focused_window().id]);
    root.resize(90, 30);
    assert_eq!(highlighted(&root), vec![root.focused_window().id]);
}

#[test]
fn resizing_twice_to_the_same_size_is_resizing_once() {
    let mut once = busy_tree();
    once.print("hello");
    once.resize(97, 33);
    let mut twice = busy_tree();
    twice.print("hello");
    twice.resize(97, 33);
    twice.resize(97, 33);
    assert_eq!(once, twice);
    twice.resize(120, 50);
    twice.resize(97, 33);
    assert_eq!(once, twice);
}

#[test]
fn a_resize_to_the_same_size_shows_what_the_print_showed() {
    let mut printed = busy_tree();
    printed.resize(120, 50);
    printed.print("hello");
    let mut resized = busy_tree();
    resized.resize(120, 50);
    resized.print("hello");
    resized.resize(120, 50);
    assert_eq!(printed, resized);
    assert_eq!(resized.focused_window().lines, vec!["hello".to_string()]);
    assert_eq!(resized.focused_window().cursor, (0, 1));
}
