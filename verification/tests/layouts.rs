use tcwm::container::{WindowContainer, WindowPayload};
use tcwm::geometry::{Direction, WindowSplitDirection};
use tcwm::window::{Color, Window};

fn pane(c: &WindowContainer, i: usize) -> &Window {
    match &c.payload[i] {
        WindowPayload::Window(w) => w,
        WindowPayload::Container(_) => panic!("child {} is a container", i),
    }
}

fn container(c: &WindowContainer, i: usize) -> &WindowContainer {
    match &c.payload[i] {
        WindowPayload::Container(k) => k,
        WindowPayload::Window(_) => panic!("child {} is a pane", i),
    }
}

fn widths(c: &WindowContainer) -> Vec<i32> {
    c.payload
        .iter()
        .map(|p| match p {
            WindowPayload::Window(w) => w.xmax,
            WindowPayload::Container(k) => k.width,
        })
        .collect()
}

fn three_panes() -> WindowContainer {
    let mut root = WindowContainer::new_with_ids(1, 2, 100, 40);
    root.split_with_id(3);
    root.split_with_id(4);
    root
}

#[test]
fn two_splits_of_a_vertical_root_of_width_100() {
    let mut root = WindowContainer::new_with_ids(1, 2, 100, 40);
    assert_eq!(root.direction, WindowSplitDirection::Vertical);
    root.split();
    root.split();
    assert_eq!(widths(&root), vec![33, 33, 34]);
    assert_eq!(pane(&root, 0).x, 0);
    assert_eq!(pane(&root, 1).x, 33);
    assert_eq!(pane(&root, 2).x, 66);
    assert_eq!(pane(&root, 2).ymax, 40);
    assert_eq!(root.focus, 2);
    assert!(root.well_formed());
}

#[test]
fn a_split_gives_the_new_pane_the_focus_and_a_border() {
    let root = three_panes();
    assert_eq!(pane(&root, 0).id, 2);
    assert_eq!(pane(&root, 1).id, 3);
    assert_eq!(pane(&root, 2).id, 4);
    assert!(!pane(&root, 0).border);
    assert!(pane(&root, 1).border);
    assert!(pane(&root, 2).border);
    assert_eq!(pane(&root, 0).header_color, Color::Status);
    assert_eq!(pane(&root, 1).header_color, Color::Status);
    assert_eq!(pane(&root, 2).header_color, Color::StatusSelected);
    assert_eq!(pane(&root, 2).header, "Window 2 (66, 0) (34, 40)");
    assert_eq!(root.focused_window().id, 4);
}

#[test]
fn deleting_the_middle_of_three_panes() {
    let mut root = three_panes();
    root.change_focus(Direction::Left);
    assert_eq!(root.focus, 1);
    root.delete();
    assert_eq!(root.payload.len(), 2);
    assert_eq!(widths(&root), vec![50, 50]);
    assert_eq!(pane(&root, 0).id, 2);
    assert_eq!(pane(&root, 1).id, 4);
    assert_eq!(pane(&root, 1).x, 50);
    assert_eq!(root.focus, 0);
    assert_eq!(root.focused_window().id, 2);
    assert_eq!(pane(&root, 0).header_color, Color::StatusSelected);
    assert_eq!(pane(&root, 1).header_color, Color::Status);
    assert!(root.well_formed());
}

#[test]
fn deleting_the_first_pane_leaves_the_focus_at_zero() {
    let mut root = three_panes();
    root.change_focus(Direction::Left);
    root.change_focus(Direction::Left);
    assert_eq!(root.focus, 0);
    root.delete();
    assert_eq!(root.focus, 0);
    assert_eq!(root.focused_window().id, 3);
    assert_eq!(widths(&root), vec![50, 50]);
}

#[test]
fn deleting_the_only_pane_changes_nothing() {
    let mut root = WindowContainer::new_with_ids(1, 2, 100, 40);
    root.delete();
    assert_eq!(root.payload.len(), 1);
    assert_eq!(root, WindowContainer::new_with_ids(1, 2, 100, 40));
    assert!(root.single_pane());
}

#[test]
fn moving_the_focus_up_in_a_vertical_root_changes_nothing() {
    let mut root = WindowContainer::new_with_ids(1, 2, 100, 40);
    root.change_focus(Direction::Up);
    assert_eq!(root.focus, 0);
    assert_eq!(root, WindowContainer::new_with_ids(1, 2, 100, 40));
    let mut three = three_panes();
    three.change_focus(Direction::Up);
    three.change_focus(Direction::Down);
    assert_eq!(three, three_panes());
}

#[test]
fn promoting_the_focused_pane_of_two() {
    let mut root = WindowContainer::new_with_ids(1, 2, 100, 40);
    root.split_with_id(3);
    assert_eq!(root.focus, 1);
    root.set_split_direction_with_id(WindowSplitDirection::Horizontal, 9);
    assert_eq!(root.payload.len(), 2);
    assert_eq!(root.direction, WindowSplitDirection::Vertical);
    assert_eq!(root.focus, 1);
    let sibling = pane(&root, 0);
    assert_eq!(sibling.id, 2);
    assert_eq!((sibling.x, sibling.y, sibling.xmax, sibling.ymax), (0, 0, 50, 40));
    assert_eq!(sibling.header, "Window 0 (0, 0) (50, 40)");
    let sub = container(&root, 1);
    assert_eq!(sub.id, 9);
    assert_eq!(sub.direction, WindowSplitDirection::Horizontal);
    assert_eq!(sub.payload.len(), 1);
    assert_eq!(sub.focus, 0);
    assert!(!sub.root);
    assert_eq!((sub.container_x, sub.container_y, sub.width, sub.height), (50, 0, 50, 40));
    let promoted = pane(sub, 0);
    assert_eq!(promoted.id, 3);
    assert_eq!((promoted.x, promoted.y, promoted.xmax, promoted.ymax), (50, 0, 50, 40));
    assert_eq!(promoted.header, "Container 0 (50, 0) (50, 40)");
    assert!(root.well_formed());
}

#[test]
fn a_container_with_one_child_takes_the_axis_itself() {
    let mut root = WindowContainer::new_with_ids(1, 2, 100, 40);
    root.set_split_direction_with_id(WindowSplitDirection::Horizontal, 9);
    assert_eq!(root.direction, WindowSplitDirection::Horizontal);
    assert_eq!(root.payload.len(), 1);
    assert_eq!(pane(&root, 0).id, 2);
    root.split_with_id(3);
    assert_eq!(pane(&root, 0).ymax, 20);
    assert_eq!(pane(&root, 1).y, 20);
    assert_eq!(pane(&root, 1).ymax, 20);
    assert_eq!(pane(&root, 1).xmax, 100);
    assert!(!pane(&root, 1).border);
}
