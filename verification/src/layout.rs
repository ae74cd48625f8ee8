//! Laying a tree out: every container gives each child the rectangle that
//! belongs to it, from the top down.

use vstd::prelude::*;
use crate::container::{ContainerView, NodeView, WindowContainer, WindowPayload};
use crate::geometry::{Rect, WindowSplitDirection, divide_extent, lemma_slot_bounds, slot_origin, slot_rest, slot_size};

verus! {

impl ContainerView {
    /// The container with its own rectangle set to `to`, and its children as
    /// they were.
    pub open spec fn framed(self, to: Rect) -> ContainerView {
        ContainerView { x: to.x, y: to.y, width: to.width, height: to.height, ..self }
    }

    /// The tree laid out in the rectangle `to`: the container covers it, each
    /// pane among its children is moved to the rectangle that belongs to it,
    /// and each container among them is laid out in its own.
    pub open spec fn placed(self, to: Rect) -> ContainerView
        decreases self,
    {
        ContainerView {
            children: Seq::new(
                self.children.len(),
                |i: int|
                    if 0 <= i < self.children.len() {
                        match self.children[i] {
                            NodeView::Window(p) => NodeView::Window(p.moved(self.framed(to).child_rect(i))),
                            NodeView::Container(c) => NodeView::Container(
                                c.placed(self.framed(to).child_rect(i)),
                            ),
                        }
                    } else {
                        self.children[i]
                    },
            ),
            ..self.framed(to)
        }
    }

    /// Every child's rectangle lies inside the container's own.
    pub proof fn lemma_child_rect_bounded(self, i: int)
        requires
            self.rect().bounded(),
            0 <= i < self.children.len(),
        ensures
            self.child_rect(i).bounded(),
            self.x <= self.child_rect(i).x,
            self.y <= self.child_rect(i).y,
            self.child_rect(i).x + self.child_rect(i).width <= self.x + self.width,
            self.child_rect(i).y + self.child_rect(i).height <= self.y + self.height,
    {
        reveal(slot_origin);
        let n: int = self.children.len() as int;
        match self.direction {
            WindowSplitDirection::Horizontal => {
                lemma_slot_bounds(self.height, n, i);
            },
            WindowSplitDirection::Vertical => {
                lemma_slot_bounds(self.width, n, i);
            },
        }
    }

    /// A tree that is sound in shape is well formed once it is laid out in a
    /// rectangle of the screen.
    pub proof fn lemma_placed_wf(self, to: Rect)
        requires
            self.shaped(),
            to.bounded(),
        ensures
            self.placed(to).shaped(),
            self.placed(to).laid_out(),
            self.placed(to).rect() == to,
            self.placed(to).children.len() == self.children.len(),
            self.placed(to).focus == self.focus,
            self.placed(to).root == self.root,
        decreases self,
    {
        let out = self.placed(to);
        let frame = self.framed(to);
        assert forall|i: int| 0 <= i < out.children.len() implies {
            &&& (#[trigger] out.children[i]).rect() == out.child_rect(i)
            &&& (out.children[i] matches NodeView::Container(c) ==> c.shaped() && !c.root && c.laid_out())
        } by {
            frame.lemma_child_rect_bounded(i);
            assert(out.child_rect(i) == frame.child_rect(i));
            match self.children[i] {
                NodeView::Window(p) => {},
                NodeView::Container(c) => {
                    c.lemma_placed_wf(frame.child_rect(i));
                },
            }
        }
    }
}

impl WindowContainer {
    /// Divides the container among `window_count` children along
    /// `direction`, or among its own children along its own axis where these
    /// are not given. Returns where the container begins along that axis, the
    /// size of a slot, and the rest that the last child gets on top.
    pub fn calculate_dimensions(
        &self,
        window_count: Option<usize>,
        direction: Option<WindowSplitDirection>,
    ) -> (r: (i32, i32, i32))
        requires
            self@.rect().bounded(),
            match window_count {
                Some(n) => 1 <= n,
                None => 1 <= self@.children.len(),
            },
        ensures
            ({
                let along = match direction {
                    Some(d) => d,
                    None => self@.direction,
                };
                let count: int = match window_count {
                    Some(n) => n as int,
                    None => self@.children.len() as int,
                };
                &&& r.0 == self@.origin_along(along)
                &&& r.1 == slot_size(self@.extent_along(along), count)
                &&& r.2 == slot_rest(self@.extent_along(along), count)
            }),
    {
        let count: usize = match window_count {
            Some(n) => n,
            None => self.payload.len(),
        };
        let along: WindowSplitDirection = match direction {
            Some(d) => d,
            None => self.direction,
        };
        let (dim, pos) = match along {
            WindowSplitDirection::Horizontal => (self.height, self.container_y),
            WindowSplitDirection::Vertical => (self.width, self.container_x),
        };
        let (size, rounding_error) = divide_extent(dim, count);
        (pos, size, rounding_error)
    }

    /// The rectangle that belongs to child `i`, as width, height, x and y.
    pub fn child_rect(&self, i: usize) -> (r: (i32, i32, i32, i32))
        requires
            self@.rect().bounded(),
            i < self@.children.len(),
        ensures
            (Rect { x: r.2 as int, y: r.3 as int, width: r.0 as int, height: r.1 as int })
                == self@.child_rect(i as int),
    {
        let n: usize = self.payload.len();
        proof {
            reveal(slot_origin);
            self@.lemma_child_rect_bounded(i as int);
            lemma_slot_bounds(self@.axis_extent(), n as int, i as int);
        }
        let (pos, size, rounding_error) = self.calculate_dimensions(None, None);
        let offset: u64 = (i as u64) * (size as u64);
        let start: i32 = pos + (offset as i32);
        let reach: i32 = if i == n - 1 {
            size + rounding_error
        } else {
            size
        };
        match self.direction {
            WindowSplitDirection::Horizontal => (self.width, reach, self.container_x, start),
            WindowSplitDirection::Vertical => (reach, self.height, start, self.container_y),
        }
    }

    /// Lays the tree out in the rectangle `parent`, given as width, height, x
    /// and y: the container takes the rectangle, and every child below it is
    /// moved to the rectangle that belongs to it.
    pub fn on_resize(&mut self, parent: (i32, i32, i32, i32))
        requires
            old(self)@.shaped(),
            (Rect {
                x: parent.2 as int,
                y: parent.3 as int,
                width: parent.0 as int,
                height: parent.1 as int,
            }).bounded(),
        ensures
            final(self)@ == old(self)@.placed(
                Rect {
                    x: parent.2 as int,
                    y: parent.3 as int,
                    width: parent.0 as int,
                    height: parent.1 as int,
                },
            ),
            final(self)@.wf(),
        decreases *old(self),
    {
        let ghost to = Rect {
            x: parent.2 as int,
            y: parent.3 as int,
            width: parent.0 as int,
            height: parent.1 as int,
        };
        let ghost target = old(self)@.placed(to);
        proof {
            old(self)@.lemma_placed_wf(to);
        }
        self.width = parent.0;
        self.height = parent.1;
        self.container_x = parent.2;
        self.container_y = parent.3;
        let n: usize = self.payload.len();
        let mut i: usize = 0;
        while i < n
            invariant
                i <= n,
                n == old(self).payload@.len(),
                n == self.payload@.len(),
                old(self)@.shaped(),
                to.bounded(),
                to == (Rect {
                    x: parent.2 as int,
                    y: parent.3 as int,
                    width: parent.0 as int,
                    height: parent.1 as int,
                }),
                target == old(self)@.placed(to),
                self.id == old(self).id,
                self.direction == old(self).direction,
                self.focus == old(self).focus,
                self.root == old(self).root,
                self.width == parent.0,
                self.height == parent.1,
                self.container_x == parent.2,
                self.container_y == parent.3,
                forall|j: int| 0 <= j < i ==> (#[trigger] self.payload@[j])@ == target.children[j],
                forall|j: int| i <= j < n ==> #[trigger] self.payload@[j] == old(self).payload@[j],
            decreases n - i,
        {
            assert(self@.child_rect(i as int) == old(self)@.framed(to).child_rect(i as int));
            proof {
                self@.lemma_child_rect_bounded(i as int);
            }
            let slot = self.child_rect(i);
            assert(old(self)@.children[i as int] == old(self).payload@[i as int]@);
            match &mut self.payload[i] {
                WindowPayload::Window(w) => {
                    w.move_to(slot.2, slot.3, slot.0, slot.1);
                },
                WindowPayload::Container(c) => {
                    c.on_resize(slot);
                },
            }
            i = i + 1;
        }
        assert(self@.children =~= target.children);
    }

    /// Tells whether the tree is well formed: sound in shape and in
    /// geometry.
    pub fn well_formed(&self) -> (b: bool)
        ensures
            b == self@.wf(),
        decreases self,
    {
        if self.container_x < 0 || self.container_y < 0 || self.width < 0 || self.height < 0 {
            return false;
        }
        if self.width > i32::MAX - self.container_x || self.height > i32::MAX - self.container_y {
            return false;
        }
        let n: usize = self.payload.len();
        if n == 0 || self.focus >= n {
            return false;
        }
        let mut i: usize = 0;
        while i < n
            invariant
                i <= n,
                n == self.payload@.len(),
                self@.rect().bounded(),
                self.focus < n,
                forall|j: int|
                    0 <= j < i ==> {
                        &&& (#[trigger] self@.children[j]).rect() == self@.child_rect(j)
                        &&& (self@.children[j] matches NodeView::Container(k) ==> k.wf() && !k.root)
                    },
            decreases n - i,
        {
            let slot = self.child_rect(i);
            assert(self@.children[i as int] == self.payload@[i as int]@);
            let fits: bool = match &self.payload[i] {
                WindowPayload::Window(w) => w.xmax == slot.0 && w.ymax == slot.1 && w.x == slot.2 && w.y
                    == slot.3,
                WindowPayload::Container(c) => !c.root && c.width == slot.0 && c.height == slot.1
                    && c.container_x == slot.2 && c.container_y == slot.3 && c.well_formed(),
            };
            if !fits {
                assert(!(self@.shaped() && self@.laid_out())) by {
                    if self@.shaped() && self@.laid_out() {
                        assert(self@.children[i as int].rect() == self@.child_rect(i as int));
                    }
                }
                return false;
            }
            i = i + 1;
        }
        true
    }
}

} // verus!
