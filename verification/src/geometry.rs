//! Axes, directions and the arithmetic that divides one extent among the
//! children of a container.

use vstd::prelude::*;
use vstd::arithmetic::div_mod::lemma_fundamental_div_mod;

verus! {

/// The axis along which a container lines up its children.
///
/// A `Vertical` container is cut by vertical lines: its children stand side
/// by side and share its width. A `Horizontal` container stacks its children
/// and they share its height.
#[derive(Copy, Clone, Debug, PartialEq, Eq, Structural)]
pub enum WindowSplitDirection {
    Horizontal,
    Vertical,
}

/// A direction in which the focus can be asked to move.
#[derive(Copy, Clone, Debug, PartialEq, Eq, Structural)]
pub enum Direction {
    Up,
    Down,
    Left,
    Right,
}

/// A rectangle of character cells.
pub struct Rect {
    pub x: int,
    pub y: int,
    pub width: int,
    pub height: int,
}

impl Rect {
    /// The rectangle starts at a cell of the screen and every coordinate in it
    /// fits in an `i32`.
    pub open spec fn bounded(self) -> bool {
        &&& 0 <= self.x
        &&& 0 <= self.y
        &&& 0 <= self.width
        &&& 0 <= self.height
        &&& self.x + self.width <= i32::MAX
        &&& self.y + self.height <= i32::MAX
    }
}

impl WindowSplitDirection {
    /// Whether a container with this axis moves its focus in direction `dir`.
    pub open spec fn accepts(self, dir: Direction) -> bool {
        match self {
            WindowSplitDirection::Vertical => dir == Direction::Left || dir == Direction::Right,
            WindowSplitDirection::Horizontal => dir == Direction::Up || dir == Direction::Down,
        }
    }

    /// Tells whether a container with this axis moves its focus in direction
    /// `dir`: a `Vertical` one to the left and right, a `Horizontal` one up
    /// and down.
    pub fn direction_ok(&self, dir: Direction) -> (ok: bool)
        ensures
            ok == self.accepts(dir),
    {
        match *self {
            WindowSplitDirection::Vertical => dir == Direction::Left || dir == Direction::Right,
            WindowSplitDirection::Horizontal => dir == Direction::Up || dir == Direction::Down,
        }
    }
}

impl Direction {
    /// The step that this direction makes in a focus index: one back for
    /// `Left` and `Up`, one forward for `Right` and `Down`.
    pub open spec fn step(self) -> int {
        match self {
            Direction::Left | Direction::Up => -1,
            Direction::Right | Direction::Down => 1,
        }
    }
}

/// The extent that each of `count` children gets out of `extent`.
#[verifier::opaque]
pub open spec fn slot_size(extent: int, count: int) -> int {
    extent / count
}

/// What the last child gets on top of its slot: all that the slots of the
/// children leave of the extent.
#[verifier::opaque]
pub open spec fn slot_rest(extent: int, count: int) -> int {
    extent - count * (extent / count)
}

/// Where the slot of child `i` begins.
#[verifier::opaque]
pub open spec fn slot_origin(origin: int, extent: int, count: int, i: int) -> int {
    origin + i * slot_size(extent, count)
}

/// The extent of child `i`: the slot size, and for the last child the rest on
/// top of it.
pub open spec fn slot_extent(extent: int, count: int, i: int) -> int {
    if i == count - 1 {
        slot_size(extent, count) + slot_rest(extent, count)
    } else {
        slot_size(extent, count)
    }
}

/// Every slot lies inside the extent that is divided, the rest is the
/// remainder of the division, and the slots and the rest together are the
/// whole extent.
pub proof fn lemma_slot_bounds(extent: int, count: int, i: int)
    requires
        0 <= extent,
        1 <= count,
        0 <= i < count,
    ensures
        0 <= slot_size(extent, count) <= extent,
        0 <= slot_rest(extent, count) <= extent,
        slot_rest(extent, count) == extent % count,
        count * slot_size(extent, count) + slot_rest(extent, count) == extent,
        0 <= i * slot_size(extent, count),
        0 <= slot_extent(extent, count, i),
        i * slot_size(extent, count) + slot_extent(extent, count, i) <= extent,
{
    reveal(slot_size);
    reveal(slot_rest);
    let size: int = extent / count;
    let r: int = extent % count;
    lemma_fundamental_div_mod(extent, count);
    assert(0 <= size) by (nonlinear_arith)
        requires
            0 <= extent,
            1 <= count,
            size == extent / count,
    ;
    assert(count * size <= extent && 0 <= r < count);
    assert(size <= count * size) by (nonlinear_arith)
        requires
            0 <= size,
            1 <= count,
    ;
    assert(0 <= i * size && (i + 1) * size <= count * size) by (nonlinear_arith)
        requires
            0 <= size,
            0 <= i < count,
    ;
    assert((i + 1) * size == i * size + size) by (nonlinear_arith);
}

/// Divides `extent` among `count` children: the size of a slot and the rest
/// that the last child gets on top.
pub fn divide_extent(extent: i32, count: usize) -> (r: (i32, i32))
    requires
        0 <= extent,
        1 <= count,
    ensures
        r.0 == slot_size(extent as int, count as int),
        r.1 == slot_rest(extent as int, count as int),
{
    proof {
        reveal(slot_size);
        lemma_slot_bounds(extent as int, count as int, 0);
    }
    let n: u64 = count as u64;
    let e: u64 = extent as u64;
    let size: u64 = e / n;
    let rest: u64 = e % n;
    (size as i32, rest as i32)
}

} // verus!
