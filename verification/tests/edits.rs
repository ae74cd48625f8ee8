use tcwm::container::{WindowContainer, WindowPayload};
use tcwm::geometry::{Direction, WindowSplitDirection};
use tcwm::window::{Color, Window};

fn pane_of(c: &WindowContainer, i: usize) -> &Window {
    match &c.payload[i] {
        WindowPayload::Window(w) => w,
        WindowPayload::Container(_) => panic!("child {} is a container", i),
    }
}

fn container_of(c: &WindowContainer, i: usize) -> &WindowContainer {
    match &c.payload[i] {
        WindowPayload::Container(k) => k,
        WindowPayload::Window(_) => panic!("child {} is a pane", i),
    }
}

fn rect_of(w: &Window) -> (i32, i32, i32, i32) {
    (w.x, w.y, w.xmax, w.ymax)
}

/// A vertical root with the pane 2 on the left and, on the right, a
/// horizontal container 9 that holds the panes 3 and 4, the last in focus.
fn nested() -> WindowContainer {
    let mut root = WindowContainer::new_with_ids(1, 2, 100, 40);
    root.split_with_id(3);
    root.set_split_direction_with_id(WindowSplitDirection::Horizontal, 9);
    root.split_with_id(4);
    root
}

#[test]
fn a_split_inside_a_nested_container() {
    let root = nested();
    assert_eq!(root.payload.len(), 2);
    assert_eq!(rect_of(pane_of(&root, 0)), (0, 0, 50, 40));
    let sub = container_of(&root, 1);
    assert_eq!(sub.payload.len(), 2);
    assert_eq!(sub.focus, 1);
    assert_eq!(rect_of(pane_of(sub, 0)), (50, 0, 50, 20));
    assert_eq!(rect_of(pane_of(sub, 1)), (50, 20, 50, 20));
    assert!(pane_of(sub, 1).border);
    assert_eq!(pane_of(sub, 0).header, "Container 0 (50, 0) (50, 20)");
    assert_eq!(pane_of(sub, 1).header, "Container 1 (50, 20) (50, 20)");
    assert_eq!(root.focused_window().id, 4);
    assert_eq!(root.focused_container().id, 9);
    assert!(root.well_formed());
}

#[test]
fn a_split_leaves_the_other_containers_as_they_are() {
    let mut before = WindowContainer::new_with_ids(1, 2, 100, 40);
    before.split_with_id(3);
    before.set_split_direction_with_id(WindowSplitDirection::Horizontal, 9);
    let after = nested();
    assert_eq!(after.payload[0], before.payload[0]);
    assert_eq!(after.focus, before.focus);
    assert_eq!(after.direction, before.direction);
    assert_eq!((after.width, after.height), (before.width, before.height));
}

#[test]
fn resizing_a_nested_tree() {
    let mut root = nested();
    root.resize(81, 25);
    assert_eq!((root.container_x, root.container_y, root.width, root.height), (0, 0, 81, 25));
    assert_eq!(rect_of(pane_of(&root, 0)), (0, 0, 40, 25));
    let sub = container_of(&root, 1);
    assert_eq!((sub.container_x, sub.container_y, sub.width, sub.height), (40, 0, 41, 25));
    assert_eq!(rect_of(pane_of(sub, 0)), (40, 0, 41, 12));
    assert_eq!(rect_of(pane_of(sub, 1)), (40, 12, 41, 13));
    assert_eq!(pane_of(sub, 1).header, "Container 1 (40, 12) (41, 13)");
    assert!(root.well_formed());
}

#[test]
fn the_focus_goes_up_to_the_parent_where_the_child_refuses() {
    let mut root = nested();
    root.change_focus(Direction::Up);
    assert_eq!(container_of(&root, 1).focus, 0);
    assert_eq!(root.focus, 1);
    root.change_focus(Direction::Up);
    assert_eq!(container_of(&root, 1).focus, 0);
    assert_eq!(root.focus, 1);
    root.change_focus(Direction::Left);
    assert_eq!(root.focus, 0);
    assert_eq!(container_of(&root, 1).focus, 0);
    assert_eq!(root.focused_window().id, 2);
    root.change_focus(Direction::Left);
    assert_eq!(root.focus, 0);
    root.change_focus(Direction::Right);
    assert_eq!(root.focus, 1);
    assert_eq!(root.focused_window().id, 3);
    root.change_focus(Direction::Right);
    assert_eq!(root.focus, 1);
    root.change_focus(Direction::Down);
    assert_eq!(root.focused_window().id, 4);
    assert!(root.well_formed());
}

#[test]
fn the_focus_does_not_wrap_around() {
    let mut root = WindowContainer::new_with_ids(1, 2, 100, 40);
    root.split_with_id(3);
    assert_eq!(root.do_focus_change(Direction::Right), Err(()));
    assert_eq!(root.focus, 1);
    assert_eq!(root.do_focus_change(Direction::Left), Ok(()));
    assert_eq!(root.focus, 0);
    assert_eq!(root.do_focus_change(Direction::Left), Err(()));
    assert_eq!(root.do_focus_change(Direction::Up), Err(()));
    assert_eq!(root.do_focus_change(Direction::Down), Err(()));
    assert_eq!(root.focus, 0);
    assert_eq!(root.change_focus_internal(Direction::Right), Ok(()));
    assert_eq!(root.change_focus_internal(Direction::Right), Err(()));
}

#[test]
fn a_container_left_empty_goes_with_its_last_pane() {
    let mut root = WindowContainer::new_with_ids(1, 2, 100, 40);
    root.split_with_id(3);
    root.set_split_direction_with_id(WindowSplitDirection::Horizontal, 9);
    assert_eq!(root.focused_container().id, 9);
    root.delete();
    assert_eq!(root.payload.len(), 1);
    assert_eq!(root.focus, 0);
    assert_eq!(rect_of(pane_of(&root, 0)), (0, 0, 100, 40));
    assert_eq!(pane_of(&root, 0).id, 2);
    assert!(root.single_pane());
    assert!(root.well_formed());
}

#[test]
fn the_last_pane_stays_also_below_a_chain_of_containers() {
    let mut root = WindowContainer::new_with_ids(1, 2, 100, 40);
    root.split_with_id(3);
    root.set_split_direction_with_id(WindowSplitDirection::Horizontal, 9);
    root.change_focus(Direction::Left);
    root.delete();
    assert_eq!(root.payload.len(), 1);
    assert_eq!(root.focus, 0);
    let sub = container_of(&root, 0);
    assert_eq!((sub.container_x, sub.container_y, sub.width, sub.height), (0, 0, 100, 40));
    assert_eq!(rect_of(pane_of(sub, 0)), (0, 0, 100, 40));
    assert!(root.single_pane());
    root.delete();
    assert_eq!(root.payload.len(), 1);
    assert_eq!(container_of(&root, 0).payload.len(), 1);
    assert_eq!(root.focused_window().id, 3);
    assert!(root.well_formed());
}

#[test]
fn the_axis_is_set_on_the_container_that_holds_the_focused_pane() {
    let mut root = WindowContainer::new_with_ids(1, 2, 100, 40);
    root.split_with_id(3);
    root.set_split_direction_with_id(WindowSplitDirection::Horizontal, 9);
    root.change_focus(Direction::Left);
    root.delete();
    root.set_split_direction_with_id(WindowSplitDirection::Vertical, 11);
    assert_eq!(root.direction, WindowSplitDirection::Vertical);
    let sub = container_of(&root, 0);
    assert_eq!(sub.id, 9);
    assert_eq!(sub.direction, WindowSplitDirection::Vertical);
    assert_eq!(sub.payload.len(), 1);
    let mut other = nested();
    other.set_split_direction_with_id(WindowSplitDirection::Vertical, 12);
    let holder = container_of(&other, 1);
    assert_eq!(holder.direction, WindowSplitDirection::Horizontal);
    assert_eq!(container_of(holder, 1).id, 12);
    assert_eq!(container_of(holder, 1).direction, WindowSplitDirection::Vertical);
    assert_eq!(pane_of(container_of(holder, 1), 0).id, 4);
    assert!(other.well_formed());
}

#[test]
fn prune_and_remove_child() {
    let mut root = nested();
    assert!(!root.single_pane());
    root.prune();
    assert_eq!(container_of(&root, 1).payload.len(), 1);
    assert_eq!(container_of(&root, 1).focus, 0);
    assert_eq!(rect_of(pane_of(container_of(&root, 1), 0)), (50, 0, 50, 20));
    root.remove_child(0);
    assert_eq!(root.payload.len(), 1);
    assert_eq!(root.focus, 0);
    assert!(root.payload[0].is_container());
    assert!(!root.payload[0].is_window());
    assert!(root.payload[0].as_window().is_none());
    assert_eq!(root.payload[0].as_container().map(|c| c.id), Some(9));
}

#[test]
fn closures_on_the_container_that_holds_the_focused_pane() {
    let mut root = nested();
    let seen: (u128, usize) = root.with_focused_container(|c| (c.id, c.payload.len()));
    assert_eq!(seen, (9, 2));
    let old_focus: usize = root.with_focused_container_mut(|c| {
        let was: usize = c.focus;
        c.focus = 0;
        was
    });
    assert_eq!(old_focus, 1);
    assert_eq!(container_of(&root, 1).focus, 0);
    assert_eq!(root.focused_window().id, 3);
    root.focused_container_mut().focus = 1;
    assert_eq!(root.focused_window().id, 4);
    root.focused_window_mut().border = false;
    assert!(!pane_of(container_of(&root, 1), 1).border);
}

#[test]
fn laying_a_tree_out_in_a_rectangle() {
    let mut root = nested();
    root.print("hello");
    root.on_resize((60, 20, 10, 5));
    assert_eq!((root.container_x, root.container_y, root.width, root.height), (10, 5, 60, 20));
    assert_eq!(rect_of(pane_of(&root, 0)), (10, 5, 30, 20));
    let sub = container_of(&root, 1);
    assert_eq!((sub.container_x, sub.container_y, sub.width, sub.height), (40, 5, 30, 20));
    assert_eq!(rect_of(pane_of(sub, 0)), (40, 5, 30, 10));
    assert_eq!(rect_of(pane_of(sub, 1)), (40, 15, 30, 10));
    assert_eq!(pane_of(sub, 1).cursor, (0, 0));
    assert_eq!(pane_of(sub, 1).lines, vec!["hello".to_string()]);
    assert_eq!(pane_of(&root, 0).header, "Window 0 (0, 0) (50, 40)");
    assert!(root.well_formed());
}

#[test]
fn a_new_container_around_a_pane() {
    let c = WindowContainer::new_container(5, 3, 4, Window::new_window(6, 3, 4, (20, 10), true), false);
    assert_eq!(c.id, 5);
    assert_eq!(c.direction, WindowSplitDirection::Vertical);
    assert_eq!((c.container_x, c.container_y, c.width, c.height), (3, 4, 20, 10));
    assert_eq!(c.focus, 0);
    assert!(!c.root);
    assert_eq!(c.payload.len(), 1);
    assert_eq!(pane_of(&c, 0).id, 6);
    assert_eq!(pane_of(&c, 0).header, "Container 0 (3, 4) (20, 10)");
    assert_eq!(pane_of(&c, 0).header_color, Color::StatusSelected);
    assert!(c.well_formed());
}

#[test]
fn adding_a_pane_without_laying_out() {
    let mut v = WindowContainer::new_with_ids(1, 2, 100, 40);
    v.split_vertical(7);
    assert_eq!(v.payload.len(), 2);
    assert_eq!(v.focus, 0);
    assert_eq!(rect_of(pane_of(&v, 0)), (0, 0, 100, 40));
    assert_eq!(rect_of(pane_of(&v, 1)), (0, 0, 100, 40));
    assert!(pane_of(&v, 1).border);
    assert_eq!(pane_of(&v, 1).header, "New window");
    let mut at_the_edge = WindowContainer::new_with_ids(1, 2, 100, 40);
    at_the_edge.split_horizontal(7);
    assert!(!pane_of(&at_the_edge, 1).border);
    let mut inside = WindowContainer::new_container(5, 3, 4, Window::new_window(6, 3, 4, (20, 10), true), false);
    inside.split_horizontal(7);
    assert!(pane_of(&inside, 1).border);
    assert_eq!(rect_of(pane_of(&inside, 1)), (3, 4, 20, 10));
}

#[test]
fn splitting_and_setting_the_axis_of_one_container() {
    let mut c = WindowContainer::new_container(5, 10, 0, Window::new_window(6, 10, 0, (21, 10), true), false);
    c.set_axis_here(WindowSplitDirection::Horizontal, 8);
    assert_eq!(c.direction, WindowSplitDirection::Horizontal);
    assert_eq!(c.payload.len(), 1);
    c.split_here(7);
    assert_eq!(c.focus, 1);
    assert_eq!(rect_of(pane_of(&c, 0)), (10, 0, 21, 5));
    assert_eq!(rect_of(pane_of(&c, 1)), (10, 5, 21, 5));
    assert!(pane_of(&c, 1).border);
    assert_eq!(pane_of(&c, 0).header, "Container 0 (10, 0) (21, 5)");
    assert_eq!(pane_of(&c, 0).header_color, Color::Status);
    assert_eq!(pane_of(&c, 1).header_color, Color::StatusSelected);
    c.set_axis_here(WindowSplitDirection::Vertical, 9);
    assert_eq!(c.direction, WindowSplitDirection::Horizontal);
    assert_eq!(container_of(&c, 1).id, 9);
    assert_eq!(container_of(&c, 1).direction, WindowSplitDirection::Vertical);
    assert!(c.well_formed());
}

#[test]
fn no_pane_is_highlighted_where_the_focus_does_not_lead() {
    let mut root = nested();
    root.refresh_windows_internal(false, false);
    assert_eq!(pane_of(&root, 0).header_color, Color::Status);
    assert_eq!(pane_of(container_of(&root, 1), 0).header_color, Color::Status);
    assert_eq!(pane_of(container_of(&root, 1), 1).header_color, Color::Status);
    root.refresh_windows(false);
    assert_eq!(pane_of(container_of(&root, 1), 1).header_color, Color::StatusSelected);
    assert_eq!(pane_of(container_of(&root, 1), 0).header_color, Color::Status);
}

#[test]
fn a_delete_gives_the_focus_to_the_sibling_before() {
    let mut root = nested();
    assert_eq!(root.focused_container().id, 9);
    assert_eq!(root.focused_container().focus, 1);
    root.print("kept");
    root.change_focus(Direction::Up);
    root.print("three");
    root.change_focus(Direction::Down);
    root.delete();
    let holder = container_of(&root, 1);
    assert_eq!(holder.id, 9);
    assert_eq!(holder.payload.len(), 1);
    assert_eq!(holder.focus, 0);
    assert_eq!(root.focus, 1);
    assert_eq!(root.focused_window().id, 3);
    assert_eq!(root.focused_window().lines, vec!["three".to_string()]);
    assert_eq!(rect_of(root.focused_window()), (50, 0, 50, 40));
    assert!(root.well_formed());
}

#[test]
fn a_delete_of_the_first_child_gives_the_focus_to_the_next() {
    let mut root = nested();
    root.change_focus(Direction::Left);
    assert_eq!(root.focus, 0);
    assert_eq!(root.focused_window().id, 2);
    root.delete();
    assert_eq!(root.payload.len(), 1);
    assert_eq!(root.focus, 0);
    assert_eq!(container_of(&root, 0).id, 9);
    assert_eq!(container_of(&root, 0).focus, 1);
    assert_eq!(root.focused_window().id, 4);
    assert_eq!(rect_of(root.focused_window()), (0, 20, 100, 20));
    assert!(root.well_formed());
}
