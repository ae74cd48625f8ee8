//! The focus: the path of focus indices from a container down to one pane,
//! and how a step in a direction moves it.

use vstd::prelude::*;
use vstd::pervasive::unreached;
use crate::container::{ContainerView, NodeView, WindowContainer, WindowPayload, container_view, payload_view};
use crate::geometry::Direction;
use crate::window::{PaneView, Window};

verus! {

impl ContainerView {
    /// The focus path: the focus index of this container, then that of the
    /// child it names, and so on down to a pane.
    pub open spec fn focus_path(self) -> Seq<int>
        decreases self,
    {
        if 0 <= self.focus < self.children.len() {
            match self.children[self.focus] {
                NodeView::Window(_) => seq![self.focus],
                NodeView::Container(c) => seq![self.focus] + c.focus_path(),
            }
        } else {
            Seq::empty()
        }
    }

    /// Whether `path` leads from this container to a pane by focus indices
    /// alone.
    pub open spec fn follows_focus(self, path: Seq<int>) -> bool
        decreases self,
    {
        &&& path.len() >= 1
        &&& path[0] == self.focus
        &&& 0 <= self.focus < self.children.len()
        &&& match self.children[self.focus] {
            NodeView::Window(_) => path.len() == 1,
            NodeView::Container(c) => c.follows_focus(path.drop_first()),
        }
    }

    /// The pane in focus: the one at the end of the focus path.
    pub open spec fn focused_window(self) -> PaneView
        decreases self,
    {
        if 0 <= self.focus < self.children.len() {
            match self.children[self.focus] {
                NodeView::Window(p) => p,
                NodeView::Container(c) => c.focused_window(),
            }
        } else {
            arbitrary()
        }
    }

    /// The container that holds the pane in focus: the last container on the
    /// focus path.
    pub open spec fn focused_container(self) -> ContainerView
        decreases self,
    {
        if 0 <= self.focus < self.children.len() {
            match self.children[self.focus] {
                NodeView::Window(_) => self,
                NodeView::Container(c) => c.focused_container(),
            }
        } else {
            self
        }
    }

    /// The path to the container that holds the pane in focus: the focus
    /// path without its last index.
    pub open spec fn holder_path(self) -> Seq<int>
        decreases self,
    {
        if 0 <= self.focus < self.children.len() {
            match self.children[self.focus] {
                NodeView::Window(_) => Seq::empty(),
                NodeView::Container(c) => seq![self.focus] + c.holder_path(),
            }
        } else {
            Seq::empty()
        }
    }

    /// The container to which `path` leads from this one, one child index
    /// after the other, or `None` where it leads to no container.
    pub open spec fn container_at(self, path: Seq<int>) -> Option<ContainerView>
        decreases path.len(),
    {
        if path.len() == 0 {
            Some(self)
        } else if 0 <= path[0] < self.children.len() {
            match self.children[path[0]] {
                NodeView::Window(_) => None,
                NodeView::Container(c) => c.container_at(path.drop_first()),
            }
        } else {
            None
        }
    }

    /// The tree with `new` in the place of the container that holds the pane
    /// in focus.
    pub open spec fn with_holder(self, new: ContainerView) -> ContainerView
        decreases self,
    {
        if 0 <= self.focus < self.children.len() {
            match self.children[self.focus] {
                NodeView::Window(_) => new,
                NodeView::Container(c) => ContainerView {
                    children: self.children.update(self.focus, NodeView::Container(c.with_holder(new))),
                    ..self
                },
            }
        } else {
            new
        }
    }

    /// The container with `node` in the place of child `i`.
    pub open spec fn with_child(self, i: int, node: NodeView) -> ContainerView {
        ContainerView { children: self.children.update(i, node), ..self }
    }

    /// The tree with `pane` in the place of the pane in focus.
    pub open spec fn with_focused_window(self, pane: PaneView) -> ContainerView {
        self.with_holder(
            self.focused_container().with_child(self.focused_container().focus, NodeView::Window(pane)),
        )
    }

    /// The container that holds the pane in focus is as sound as the tree it
    /// stands in, and the child that its focus index names is that pane.
    pub proof fn lemma_focused_container(self)
        requires
            self.shaped(),
        ensures
            self.focused_container().shaped(),
            self.laid_out() ==> self.focused_container().laid_out(),
            self.focused_container().children[self.focused_container().focus] == NodeView::Window(
                self.focused_window(),
            ),
            self.focused_container() != self ==> !self.focused_container().root,
        decreases self,
    {
        match self.children[self.focus] {
            NodeView::Window(_) => {},
            NodeView::Container(c) => {
                c.lemma_focused_container();
            },
        }
    }

    /// Putting another container in the place of the one that holds the pane
    /// in focus keeps the tree sound, where the new one is sound, covers the
    /// same rectangle and is the root only where the old one was.
    pub proof fn lemma_with_holder(self, new: ContainerView)
        requires
            self.shaped(),
            new.shaped(),
            new.root == self.focused_container().root,
        ensures
            self.with_holder(new).shaped(),
            self.with_holder(new).root == self.root,
            self.with_holder(new).focused_container() == new.focused_container(),
            self.with_holder(new).focused_window() == new.focused_window(),
            new.rect() == self.focused_container().rect() ==> self.with_holder(new).rect() == self.rect(),
            self.laid_out() && new.laid_out() && new.rect() == self.focused_container().rect()
                ==> self.with_holder(new).laid_out(),
        decreases self,
    {
        let out = self.with_holder(new);
        match self.children[self.focus] {
            NodeView::Window(_) => {},
            NodeView::Container(c) => {
                c.lemma_with_holder(new);
                let inner = c.with_holder(new);
                assert(out.children[self.focus] == NodeView::Container(inner));
                assert forall|i: int| 0 <= i < out.children.len() implies (#[trigger] out.children[i] matches NodeView::Container(
                    k,
                ) ==> k.shaped() && !k.root) by {
                    if i != self.focus {
                        assert(out.children[i] == self.children[i]);
                    }
                }
                if self.laid_out() && new.laid_out() && new.rect() == self.focused_container().rect() {
                    assert forall|i: int| 0 <= i < out.children.len() implies (#[trigger] out.children[i]).rect()
                        == out.child_rect(i) by {
                        assert(self.children[i].rect() == self.child_rect(i));
                    }
                    assert forall|i: int| 0 <= i < out.children.len() implies (#[trigger] out.children[i] matches NodeView::Container(
                        k,
                    ) ==> k.laid_out()) by {
                        if i != self.focus {
                            assert(out.children[i] == self.children[i]);
                        }
                    }
                }
            },
        }
    }

    /// Whether the container itself takes a step of its focus index in the
    /// direction `dir`: the direction goes along its axis and the step stays
    /// among its children.
    pub open spec fn can_step(self, dir: Direction) -> bool {
        self.direction.accepts(dir) && 0 <= self.focus + dir.step() < self.children.len()
    }

    /// The container with its focus index one step further in `dir`.
    pub open spec fn stepped(self, dir: Direction) -> ContainerView {
        ContainerView { focus: self.focus + dir.step(), ..self }
    }

    /// The tree after the focus moved one step in `dir`, or `None` where no
    /// container on the focus path takes the step. The last container on the
    /// path is asked first, then the one above it, up to this one.
    pub open spec fn focus_moved(self, dir: Direction) -> Option<ContainerView>
        decreases self,
    {
        if 0 <= self.focus < self.children.len() {
            match self.children[self.focus] {
                NodeView::Window(_) => if self.can_step(dir) {
                    Some(self.stepped(dir))
                } else {
                    None
                },
                NodeView::Container(c) => match c.focus_moved(dir) {
                    Some(moved) => Some(
                        ContainerView {
                            children: self.children.update(self.focus, NodeView::Container(moved)),
                            ..self
                        },
                    ),
                    None => if self.can_step(dir) {
                        Some(self.stepped(dir))
                    } else {
                        None
                    },
                },
            }
        } else {
            None
        }
    }

    /// The tree after a request to move the focus in `dir`. Where a container
    /// took the step, the focus has moved and the header of every pane is
    /// brought up to date. Where none did, the tree is as it was.
    pub open spec fn focus_changed(self, dir: Direction) -> ContainerView {
        match self.focus_moved(dir) {
            Some(moved) => moved.refreshed(false, true),
            None => self,
        }
    }

    /// Moving the focus changes neither the shape of the tree nor its
    /// geometry.
    pub proof fn lemma_focus_moved_wf(self, dir: Direction)
        requires
            self.focus_moved(dir) is Some,
        ensures
            self.focus_moved(dir)->0.children.len() == self.children.len(),
            self.focus_moved(dir)->0.rect() == self.rect(),
            self.focus_moved(dir)->0.direction == self.direction,
            self.focus_moved(dir)->0.root == self.root,
            self.shaped() ==> self.focus_moved(dir)->0.shaped(),
            self.laid_out() ==> self.focus_moved(dir)->0.laid_out(),
        decreases self,
    {
        let out = self.focus_moved(dir)->0;
        match self.children[self.focus] {
            NodeView::Window(_) => {
                assert(out.children == self.children);
            },
            NodeView::Container(c) => {
                if c.focus_moved(dir) is Some {
                    c.lemma_focus_moved_wf(dir);
                    let moved = c.focus_moved(dir)->0;
                    assert forall|i: int| 0 <= i < out.children.len() implies {
                        &&& (#[trigger] out.children[i]).rect() == self.children[i].rect()
                        &&& (i != self.focus ==> out.children[i] == self.children[i])
                    } by {}
                    if self.shaped() {
                        assert forall|i: int| 0 <= i < out.children.len() implies (#[trigger] out.children[i] matches NodeView::Container(
                            k,
                        ) ==> k.shaped() && !k.root) by {
                            if i != self.focus {
                                assert(out.children[i] == self.children[i]);
                            }
                        }
                    }
                    if self.laid_out() {
                        assert forall|i: int| 0 <= i < out.children.len() implies (#[trigger] out.children[i]).rect()
                            == out.child_rect(i) by {
                            assert(self.children[i].rect() == self.child_rect(i));
                        }
                        assert forall|i: int| 0 <= i < out.children.len() implies (#[trigger] out.children[i] matches NodeView::Container(
                            k,
                        ) ==> k.laid_out()) by {
                            if i != self.focus {
                                assert(out.children[i] == self.children[i]);
                            }
                        }
                    }
                } else {
                    assert(out.children == self.children);
                }
            },
        }
    }
}

impl NodeView {
    /// The pane to which the focus leads from this child: the child itself
    /// where it is a pane, and the pane in focus of a container.
    pub open spec fn focused_pane(self) -> PaneView {
        match self {
            NodeView::Window(p) => p,
            NodeView::Container(c) => c.focused_window(),
        }
    }
}

impl ContainerView {
    /// A request to move the focus keeps a tree well formed.
    pub proof fn lemma_focus_changed(self, dir: Direction)
        requires
            self.wf(),
        ensures
            self.focus_changed(dir).wf(),
            self.focus_changed(dir).rect() == self.rect(),
            self.focus_changed(dir).root == self.root,
    {
        match self.focus_moved(dir) {
            Some(moved) => {
                self.lemma_focus_moved_wf(dir);
                moved.lemma_refreshed_wf(false, true);
            },
            None => {},
        }
    }
}

impl WindowContainer {
    /// Moves the focus index of this container one step in `direction`, where
    /// the direction goes along its axis and the step stays among its
    /// children. Otherwise the container stays as it is and the step is
    /// refused.
    pub fn do_focus_change(&mut self, direction: Direction) -> (r: Result<(), ()>)
        requires
            old(self)@.shaped(),
        ensures
            r.is_ok() == old(self)@.can_step(direction),
            final(self)@ == if old(self)@.can_step(direction) {
                old(self)@.stepped(direction)
            } else {
                old(self)@
            },
    {
        match direction {
            Direction::Left | Direction::Up => {
                if self.direction.direction_ok(direction) {
                    if self.focus == 0 {
                        Err(())
                    } else {
                        self.focus = self.focus - 1;
                        assert(self@.children =~= old(self)@.children);
                        Ok(())
                    }
                } else {
                    Err(())
                }
            },
            Direction::Right | Direction::Down => {
                if self.direction.direction_ok(direction) {
                    if self.focus == self.payload.len() - 1 {
                        Err(())
                    } else {
                        self.focus = self.focus + 1;
                        assert(self@.children =~= old(self)@.children);
                        Ok(())
                    }
                } else {
                    Err(())
                }
            },
        }
    }

    /// Moves the focus one step in `direction`. The last container on the
    /// focus path is asked first; where it refuses, the one above it is
    /// asked, up to this one. Returns `Err` where all of them refuse, and then
    /// the tree stays as it is.
    pub fn change_focus_internal(&mut self, direction: Direction) -> (r: Result<(), ()>)
        requires
            old(self)@.shaped(),
        ensures
            r.is_ok() == old(self)@.focus_moved(direction).is_some(),
            final(self)@ == match old(self)@.focus_moved(direction) {
                Some(moved) => moved,
                None => old(self)@,
            },
        decreases *old(self),
    {
        let f: usize = self.focus;
        assert(old(self)@.children[f as int] == old(self).payload@[f as int]@);
        let below: Result<(), ()> = match &mut self.payload[f] {
            WindowPayload::Window(_) => Err(()),
            WindowPayload::Container(c) => c.change_focus_internal(direction),
        };
        match below {
            Ok(_) => {
                assert(self@.children =~= old(self)@.focus_moved(direction)->0.children);
                Ok(())
            },
            Err(_) => {
                assert(self@.children =~= old(self)@.children);
                self.do_focus_change(direction)
            },
        }
    }

    /// Asks the focus to move one step in `direction`. Where a container on
    /// the focus path takes the step, the header of every pane is brought up
    /// to date. Where none does, nothing changes.
    pub fn change_focus(&mut self, direction: Direction)
        requires
            old(self)@.wf(),
        ensures
            final(self)@ == old(self)@.focus_changed(direction),
            final(self)@.wf(),
    {
        proof {
            old(self)@.lemma_focus_changed(direction);
        }
        match self.change_focus_internal(direction) {
            Ok(_) => {
                self.refresh_windows(false);
            },
            Err(_) => {},
        }
    }

    /// The pane in focus.
    pub fn focused_window(&self) -> (w: &Window)
        requires
            self@.shaped(),
        ensures
            w@ == self@.focused_window(),
        decreases self,
    {
        assert(self@.children[self.focus as int] == self.payload@[self.focus as int]@);
        match &self.payload[self.focus] {
            WindowPayload::Window(w) => w,
            WindowPayload::Container(c) => c.focused_window(),
        }
    }

    /// The container that holds the pane in focus.
    pub fn focused_container(&self) -> (c: &WindowContainer)
        requires
            self@.shaped(),
        ensures
            c@ == self@.focused_container(),
        decreases self,
    {
        assert(self@.children[self.focus as int] == self.payload@[self.focus as int]@);
        match &self.payload[self.focus] {
            WindowPayload::Window(_) => self,
            WindowPayload::Container(c) => c.focused_container(),
        }
    }

    /// The container that holds the pane in focus, to be changed in place.
    pub fn focused_container_mut(&mut self) -> (c: &mut WindowContainer)
        requires
            old(self)@.shaped(),
        ensures
            c@ == old(self)@.focused_container(),
            final(self)@ == old(self)@.with_holder(final(c)@),
        decreases *old(self),
    {
        let f: usize = self.focus;
        assert(old(self)@.children[f as int] == old(self).payload@[f as int]@);
        let inner: bool = match &self.payload[f] {
            WindowPayload::Container(_) => true,
            WindowPayload::Window(_) => false,
        };
        if inner {
            proof {
                let before = *old(self);
                assert forall|after: WindowContainer|
                    after.payload@.len() == before.payload@.len() && (forall|j: int|
                        0 <= j < before.payload@.len() && j != f ==> after.payload@[j]
                            == before.payload@[j]) implies (#[trigger] container_view(after)).children
                    == before@.children.update(f as int, payload_view(after.payload@[f as int])) by {
                    assert(container_view(after).children =~= before@.children.update(
                        f as int,
                        payload_view(after.payload@[f as int]),
                    ));
                }
            }
            match &mut self.payload[f] {
                WindowPayload::Container(c) => c.focused_container_mut(),
                WindowPayload::Window(_) => unreached(),
            }
        } else {
            self
        }
    }

    /// The pane in focus, to be changed in place.
    pub fn focused_window_mut(&mut self) -> (w: &mut Window)
        requires
            old(self)@.shaped(),
        ensures
            w@ == old(self)@.focused_window(),
            final(self)@ == old(self)@.with_focused_window(final(w)@),
    {
        proof {
            old(self)@.lemma_focused_container();
        }
        let c = self.focused_container_mut();
        let f: usize = c.focus;
        assert(c@.children[f as int] == c.payload@[f as int]@);
        proof {
            let before = *c;
            assert forall|after: WindowContainer|
                after.payload@.len() == before.payload@.len() && (forall|j: int|
                    0 <= j < before.payload@.len() && j != f ==> after.payload@[j] == before.payload@[j])
                    implies (#[trigger] container_view(after)).children == before@.children.update(
                    f as int,
                    payload_view(after.payload@[f as int]),
                ) by {
                assert(container_view(after).children =~= before@.children.update(
                    f as int,
                    payload_view(after.payload@[f as int]),
                ));
            }
        }
        match &mut c.payload[f] {
            WindowPayload::Window(w) => w,
            WindowPayload::Container(_) => unreached(),
        }
    }

    /// Calls `f` on the container that holds the pane in focus.
    pub fn with_focused_container<F, T>(&self, f: F) -> (r: T) where F: Fn(&WindowContainer) -> T
        requires
            self@.shaped(),
            forall|c: &WindowContainer| c@ == self@.focused_container() ==> #[trigger] f.requires((c,)),
        ensures
            exists|c: &WindowContainer| c@ == self@.focused_container() && #[trigger] f.ensures((c,), r),
    {
        let c = self.focused_container();
        f(c)
    }

    /// Calls `f` on the container that holds the pane in focus, which `f` may
    /// change in place.
    pub fn with_focused_container_mut<F, T>(&mut self, f: F) -> (r: T) where
        F: Fn(&mut WindowContainer) -> T,
        requires
            old(self)@.shaped(),
            forall|c: &mut WindowContainer|
                c@ == old(self)@.focused_container() ==> #[trigger] f.requires((c,)),
        ensures
            exists|c: &mut WindowContainer|
                c@ == old(self)@.focused_container() && #[trigger] f.ensures((c,), r) && final(self)@ == old(
                    self,
                )@.with_holder(final(c)@),
    {
        let c = self.focused_container_mut();
        f(c)
    }
}

} // verus!
