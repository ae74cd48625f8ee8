use tcwm::geometry::{divide_extent, Direction, WindowSplitDirection};
use tcwm::text::{make_header, push_decimal, push_int};

fn decimal(n: u64) -> String {
    let mut s = String::new();
    push_decimal(&mut s, n);
    s
}

fn signed(n: i32) -> String {
    let mut s = String::from("<");
    push_int(&mut s, n);
    s
}

#[test]
fn natural_numbers_in_decimal() {
    assert_eq!(decimal(0), "0");
    assert_eq!(decimal(7), "7");
    assert_eq!(decimal(10), "10");
    assert_eq!(decimal(109), "109");
    assert_eq!(decimal(1234567890), "1234567890");
    assert_eq!(decimal(u64::MAX), "18446744073709551615");
}

#[test]
fn integers_in_decimal() {
    assert_eq!(signed(0), "<0");
    assert_eq!(signed(42), "<42");
    assert_eq!(signed(-1), "<-1");
    assert_eq!(signed(i32::MAX), "<2147483647");
    assert_eq!(signed(i32::MIN), "<-2147483648");
}

#[test]
fn decimal_agrees_with_the_standard_library() {
    let samples: [u64; 8] = [0, 1, 9, 10, 99, 100, 4096, 9999999999];
    for n in samples {
        assert_eq!(decimal(n), n.to_string());
    }
    let numbers: [i32; 6] = [0, -9, -10, 100, -100, 65535];
    for n in numbers {
        assert_eq!(signed(n), format!("<{}", n));
    }
}

#[test]
fn the_header_of_a_pane() {
    assert_eq!(make_header(true, 0, 0, 0, 100, 40), "Window 0 (0, 0) (100, 40)");
    assert_eq!(make_header(true, 2, 66, 0, 34, 40), "Window 2 (66, 0) (34, 40)");
    assert_eq!(make_header(false, 12, 50, 20, 50, 20), "Container 12 (50, 20) (50, 20)");
    assert_eq!(
        make_header(false, 3, -5, 7, i32::MAX, i32::MIN),
        "Container 3 (-5, 7) (2147483647, -2147483648)"
    );
}

#[test]
fn dividing_an_extent() {
    assert_eq!(divide_extent(100, 3), (33, 1));
    assert_eq!(divide_extent(100, 2), (50, 0));
    assert_eq!(divide_extent(101, 4), (25, 1));
    assert_eq!(divide_extent(40, 1), (40, 0));
    assert_eq!(divide_extent(0, 1), (0, 0));
    assert_eq!(divide_extent(i32::MAX, 1), (i32::MAX, 0));
}

#[test]
fn the_rest_is_all_that_the_slots_leave() {
    assert_eq!(divide_extent(38, 10), (3, 8));
    assert_eq!(divide_extent(10, 4), (2, 2));
    assert_eq!(divide_extent(29, 10), (2, 9));
    assert_eq!(divide_extent(24, 5), (4, 4));
    assert_eq!(divide_extent(8, 3), (2, 2));
}

#[test]
fn an_empty_slot_leaves_the_whole_extent_as_rest() {
    assert_eq!(divide_extent(2, 3), (0, 2));
    assert_eq!(divide_extent(0, 5), (0, 0));
    assert_eq!(divide_extent(7, usize::MAX), (0, 7));
}

#[test]
fn which_directions_an_axis_takes() {
    let v = WindowSplitDirection::Vertical;
    let h = WindowSplitDirection::Horizontal;
    assert!(v.direction_ok(Direction::Left));
    assert!(v.direction_ok(Direction::Right));
    assert!(!v.direction_ok(Direction::Up));
    assert!(!v.direction_ok(Direction::Down));
    assert!(h.direction_ok(Direction::Up));
    assert!(h.direction_ok(Direction::Down));
    assert!(!h.direction_ok(Direction::Left));
    assert!(!h.direction_ok(Direction::Right));
}
