//! The tree of containers and panes, its mathematical model, and what makes
//! a tree well formed.

use vstd::prelude::*;
use crate::geometry::{Rect, WindowSplitDirection, slot_extent, slot_origin};
use crate::window::{PaneView, Window};

verus! {

/// A child of a container: a pane, or a container of its own.
#[derive(Debug, PartialEq, Eq)]
pub enum WindowPayload {
    Window(Window),
    Container(WindowContainer),
}

/// A container: children in a row along one axis, one of them in focus.
///
/// `container_x` and `container_y` are its origin. `focus` is the index of
/// the child that holds the focus or leads to it. `root` marks the one
/// container that has no parent.
#[derive(Debug, PartialEq, Eq)]
pub struct WindowContainer {
    pub id: u128,
    pub payload: Vec<WindowPayload>,
    pub direction: WindowSplitDirection,
    pub container_x: i32,
    pub container_y: i32,
    pub width: i32,
    pub height: i32,
    pub focus: usize,
    pub root: bool,
}

/// What a child of a container is, as plain mathematical values.
pub enum NodeView {
    Window(PaneView),
    Container(ContainerView),
}

/// What a container is, as plain mathematical values.
pub struct ContainerView {
    pub id: u128,
    pub children: Seq<NodeView>,
    pub direction: WindowSplitDirection,
    pub x: int,
    pub y: int,
    pub width: int,
    pub height: int,
    pub focus: int,
    pub root: bool,
}

/// The model of a child.
pub open spec fn payload_view(p: WindowPayload) -> NodeView
    decreases p,
{
    match p {
        WindowPayload::Window(w) => NodeView::Window(w@),
        WindowPayload::Container(c) => NodeView::Container(container_view(c)),
    }
}

/// The model of a container: its own values, and the models of its children
/// in their order.
pub open spec fn container_view(c: WindowContainer) -> ContainerView
    decreases c,
{
    ContainerView {
        id: c.id,
        children: Seq::new(
            c.payload@.len(),
            |i: int|
                if 0 <= i < c.payload@.len() {
                    payload_view(c.payload@[i])
                } else {
                    NodeView::Window(arbitrary())
                },
        ),
        direction: c.direction,
        x: c.container_x as int,
        y: c.container_y as int,
        width: c.width as int,
        height: c.height as int,
        focus: c.focus as int,
        root: c.root,
    }
}

impl View for WindowPayload {
    type V = NodeView;

    open spec fn view(&self) -> NodeView {
        payload_view(*self)
    }
}

impl View for WindowContainer {
    type V = ContainerView;

    open spec fn view(&self) -> ContainerView {
        container_view(*self)
    }
}

impl WindowPayload {
    /// Tells whether the child is a container.
    pub fn is_container(&self) -> (b: bool)
        ensures
            b == (self@ is Container),
    {
        match self {
            WindowPayload::Window(_) => false,
            WindowPayload::Container(_) => true,
        }
    }

    /// Tells whether the child is a pane.
    pub fn is_window(&self) -> (b: bool)
        ensures
            b == (self@ is Window),
    {
        !self.is_container()
    }

    /// The child as a container, or `None` where it is a pane.
    pub fn as_container(&self) -> (c: Option<&WindowContainer>)
        ensures
            match c {
                Some(k) => self@ == NodeView::Container(k@),
                None => self@ is Window,
            },
    {
        match self {
            WindowPayload::Container(c) => Some(c),
            WindowPayload::Window(_) => None,
        }
    }

    /// The child as a pane, or `None` where it is a container.
    pub fn as_window(&self) -> (w: Option<&Window>)
        ensures
            match w {
                Some(p) => self@ == NodeView::Window(p@),
                None => self@ is Container,
            },
    {
        match self {
            WindowPayload::Window(w) => Some(w),
            WindowPayload::Container(_) => None,
        }
    }
}

impl NodeView {
    /// The rectangle that the child covers.
    pub open spec fn rect(self) -> Rect {
        match self {
            NodeView::Window(p) => p.rect(),
            NodeView::Container(c) => c.rect(),
        }
    }
}

impl ContainerView {
    /// The rectangle that the container covers.
    pub open spec fn rect(self) -> Rect {
        Rect { x: self.x, y: self.y, width: self.width, height: self.height }
    }

    /// The extent of the container along the axis `along`.
    pub open spec fn extent_along(self, along: WindowSplitDirection) -> int {
        match along {
            WindowSplitDirection::Horizontal => self.height,
            WindowSplitDirection::Vertical => self.width,
        }
    }

    /// Where the container begins along the axis `along`.
    pub open spec fn origin_along(self, along: WindowSplitDirection) -> int {
        match along {
            WindowSplitDirection::Horizontal => self.y,
            WindowSplitDirection::Vertical => self.x,
        }
    }

    /// The extent of the container along its own axis.
    pub open spec fn axis_extent(self) -> int {
        self.extent_along(self.direction)
    }

    /// Where the container begins along its own axis.
    pub open spec fn axis_origin(self) -> int {
        self.origin_along(self.direction)
    }

    /// The rectangle that belongs to child `i`: its slot along the axis, and
    /// all of the container across it.
    pub open spec fn child_rect(self, i: int) -> Rect {
        let n: int = self.children.len() as int;
        match self.direction {
            WindowSplitDirection::Horizontal => Rect {
                x: self.x,
                y: slot_origin(self.y, self.height, n, i),
                width: self.width,
                height: slot_extent(self.height, n, i),
            },
            WindowSplitDirection::Vertical => Rect {
                x: slot_origin(self.x, self.width, n, i),
                y: self.y,
                width: slot_extent(self.width, n, i),
                height: self.height,
            },
        }
    }

    /// The shape of the tree is sound: every container in it has a child, its
    /// focus index names one of its children, and no container below the top
    /// is marked as the root.
    pub open spec fn shaped(self) -> bool
        decreases self,
    {
        &&& 1 <= self.children.len() <= usize::MAX
        &&& 0 <= self.focus < self.children.len()
        &&& forall|i: int|
            0 <= i < self.children.len() ==> (#[trigger] self.children[i] matches NodeView::Container(c)
                ==> c.shaped() && !c.root)
    }

    /// The geometry of the tree is sound: the container lies on the screen,
    /// every child covers the rectangle that belongs to it, and the same holds
    /// in every container below.
    pub open spec fn laid_out(self) -> bool
        decreases self,
    {
        &&& self.rect().bounded()
        &&& forall|i: int|
            0 <= i < self.children.len() ==> (#[trigger] self.children[i]).rect() == self.child_rect(i)
        &&& forall|i: int|
            0 <= i < self.children.len() ==> (#[trigger] self.children[i] matches NodeView::Container(c)
                ==> c.laid_out())
    }

    /// The tree is well formed: sound in shape and in geometry.
    pub open spec fn wf(self) -> bool {
        self.shaped() && self.laid_out()
    }
}

} // verus!
