//! Changing the shape of the tree: a new pane beside the one in focus, a new
//! axis for it, and taking it out.

use vstd::prelude::*;
use vstd::pervasive::unreached;
use crate::container::{ContainerView, NodeView, WindowContainer, WindowPayload, container_view, payload_view};
use crate::geometry::{WindowSplitDirection, slot_origin, slot_rest, slot_size};
use crate::ident::{Id, fresh_id, is_random};
use crate::text::header_text;
use crate::window::{Color, PaneView, Window};

verus! {

impl ContainerView {
    /// Whether a pane that is added to this container gets a border: always
    /// in a `Vertical` container, and in a `Horizontal` one where it does not
    /// begin at the left edge of the screen.
    pub open spec fn borders_new_pane(self) -> bool {
        match self.direction {
            WindowSplitDirection::Vertical => true,
            WindowSplitDirection::Horizontal => self.x > 0,
        }
    }

    /// The container with a new, empty pane after its last child. Nothing else
    /// has changed yet.
    pub open spec fn with_pane(self, id: Id, border: bool) -> ContainerView {
        ContainerView {
            children: self.children.push(
                NodeView::Window(
                    PaneView {
                        id,
                        border,
                        x: self.x,
                        y: self.y,
                        width: self.width,
                        height: self.height,
                        cursor: (0, 0),
                        lines: Seq::empty(),
                        header: "New window"@,
                        header_color: Color::StatusSelected,
                    },
                ),
            ),
            ..self
        }
    }

    /// The container with a new, empty pane after its last child, which holds
    /// the focus. No rectangle has changed yet.
    pub open spec fn grown(self, id: Id) -> ContainerView {
        ContainerView {
            focus: self.children.len() as int,
            ..self.with_pane(id, self.borders_new_pane())
        }
    }

    /// The container after a split: a new pane with the given id stands after
    /// its last child and holds the focus, the container's rectangle is
    /// divided anew among all its children, and every pane below it is brought
    /// up to date.
    pub open spec fn with_new_pane(self, id: Id) -> ContainerView {
        self.grown(id).placed(self.rect()).refreshed(true, true)
    }

    /// The tree after a split of the container that holds the pane in focus.
    /// Nothing outside that container changes.
    pub open spec fn split_with(self, id: Id) -> ContainerView {
        self.with_holder(self.focused_container().with_new_pane(id))
    }

    /// A new container around one pane: it begins at `x`, `y` and has the
    /// pane's size, the pane is its only child and holds its focus, and the
    /// pane's header is brought up to date.
    pub open spec fn around(id: Id, x: int, y: int, pane: PaneView, root: bool) -> ContainerView {
        (ContainerView {
            id,
            children: seq![NodeView::Window(pane)],
            direction: WindowSplitDirection::Vertical,
            x,
            y,
            width: pane.width,
            height: pane.height,
            focus: 0,
            root,
        }).refreshed(false, true)
    }

    /// The container after its axis was set to `direction`. With one child,
    /// the container takes the axis itself. With more, the pane that its focus
    /// index names goes into a new container of its own, which has the id `id`
    /// and the axis `direction` and stands where the pane stood.
    pub open spec fn with_axis(self, direction: WindowSplitDirection, id: Id) -> ContainerView {
        if self.children.len() == 1 {
            ContainerView { direction, ..self }
        } else if 0 <= self.focus < self.children.len() {
            match self.children[self.focus] {
                NodeView::Window(p) => self.with_child(
                    self.focus,
                    NodeView::Container(ContainerView { direction, ..Self::around(id, p.x, p.y, p, false) }),
                ),
                NodeView::Container(_) => self,
            }
        } else {
            self
        }
    }

    /// The tree after the axis of the container that holds the pane in focus
    /// was set to `direction`.
    pub open spec fn split_direction_set(self, direction: WindowSplitDirection, id: Id) -> ContainerView {
        self.with_holder(self.focused_container().with_axis(direction, id))
    }

    /// A container with a single child gives it its whole rectangle, whatever
    /// its axis.
    pub proof fn lemma_only_child_rect(self)
        requires
            self.children.len() == 1,
            0 <= self.width,
            0 <= self.height,
        ensures
            self.child_rect(0) == self.rect(),
    {
        reveal(slot_size);
        reveal(slot_rest);
        reveal(slot_origin);
        assert(0 * slot_size(self.width, 1) == 0) by (nonlinear_arith);
        assert(0 * slot_size(self.height, 1) == 0) by (nonlinear_arith);
        assert(self.width / 1 == self.width && self.height / 1 == self.height);
    }

    /// A new container that begins where its pane begins is well formed,
    /// where the pane lies on the screen.
    pub proof fn lemma_around(id: Id, pane: PaneView, root: bool)
        requires
            pane.rect().bounded(),
        ensures
            Self::around(id, pane.x, pane.y, pane, root).wf(),
            Self::around(id, pane.x, pane.y, pane, root).rect() == pane.rect(),
            Self::around(id, pane.x, pane.y, pane, root).root == root,
            Self::around(id, pane.x, pane.y, pane, root).children.len() == 1,
            Self::around(id, pane.x, pane.y, pane, root).focus == 0,
    {
        let bare = ContainerView {
            id,
            children: seq![NodeView::Window(pane)],
            direction: WindowSplitDirection::Vertical,
            x: pane.x,
            y: pane.y,
            width: pane.width,
            height: pane.height,
            focus: 0,
            root,
        };
        bare.lemma_only_child_rect();
        assert(bare.shaped());
        assert(bare.laid_out());
        bare.lemma_refreshed_wf(false, true);
    }

    /// Setting the axis keeps a container well formed, where the child that
    /// its focus index names is a pane.
    pub proof fn lemma_with_axis(self, direction: WindowSplitDirection, id: Id)
        requires
            self.wf(),
            self.children[self.focus] is Window,
        ensures
            self.with_axis(direction, id).wf(),
            self.with_axis(direction, id).rect() == self.rect(),
            self.with_axis(direction, id).root == self.root,
            self.with_axis(direction, id).children.len() == self.children.len(),
            self.with_axis(direction, id).focus == self.focus,
    {
        let out = self.with_axis(direction, id);
        if self.children.len() == 1 {
            self.lemma_only_child_rect();
            out.lemma_only_child_rect();
            assert(self.children[0].rect() == self.child_rect(0));
            assert forall|i: int| 0 <= i < out.children.len() implies (#[trigger] out.children[i]).rect()
                == out.child_rect(i) by {}
        } else {
            let p = self.children[self.focus]->Window_0;
            assert(self.children[self.focus].rect() == self.child_rect(self.focus));
            self.lemma_child_rect_bounded(self.focus);
            Self::lemma_around(id, p, false);
            let wrapped = ContainerView { direction, ..Self::around(id, p.x, p.y, p, false) };
            wrapped.lemma_only_child_rect();
            Self::around(id, p.x, p.y, p, false).lemma_only_child_rect();
            assert(Self::around(id, p.x, p.y, p, false).children[0].rect() == Self::around(id, p.x, p.y, p, false).child_rect(0));
            assert forall|i: int| 0 <= i < wrapped.children.len() implies (#[trigger] wrapped.children[i]).rect()
                == wrapped.child_rect(i) by {}
            assert(wrapped.wf());
            assert forall|i: int| 0 <= i < out.children.len() implies {
                &&& (#[trigger] out.children[i]).rect() == out.child_rect(i)
                &&& (out.children[i] matches NodeView::Container(k) ==> k.shaped() && !k.root && k.laid_out())
            } by {
                assert(self.children[i].rect() == self.child_rect(i));
                if i != self.focus {
                    assert(out.children[i] == self.children[i]);
                }
            }
        }
    }

    /// Whether the tree holds one pane and no more: every container in it has
    /// a single child.
    pub open spec fn single_pane(self) -> bool
        decreases self,
    {
        self.children.len() == 1 && match self.children[0] {
            NodeView::Window(_) => true,
            NodeView::Container(c) => c.single_pane(),
        }
    }

    /// The container without child `i`. Its focus index goes back by one
    /// unless it was zero.
    pub open spec fn without_child(self, i: int) -> ContainerView {
        ContainerView {
            children: self.children.remove(i),
            focus: if self.focus > 0 {
                self.focus - 1
            } else {
                0
            },
            ..self
        }
    }

    /// The tree without the pane in focus, or `None` where nothing would be
    /// left of it. The pane leaves the container that holds it; a container
    /// that is left without a child leaves its own parent in the same way, and
    /// so on upwards. No rectangle has changed yet.
    pub open spec fn pruned(self) -> Option<ContainerView>
        decreases self,
    {
        if 0 <= self.focus < self.children.len() {
            match self.children[self.focus] {
                NodeView::Window(_) => if self.children.len() == 1 {
                    None
                } else {
                    Some(self.without_child(self.focus))
                },
                NodeView::Container(c) => match c.pruned() {
                    Some(kept) => Some(self.with_child(self.focus, NodeView::Container(kept))),
                    None => if self.children.len() == 1 {
                        None
                    } else {
                        Some(self.without_child(self.focus))
                    },
                },
            }
        } else {
            None
        }
    }

    /// The tree after the pane in focus was deleted. The last pane of a tree
    /// is never deleted: such a tree stays as it is. Otherwise the pane and
    /// every container that it leaves empty are taken out, the tree is laid
    /// out anew in its rectangle, and every pane is brought up to date.
    pub open spec fn deleted(self) -> ContainerView {
        match self.pruned() {
            Some(kept) => kept.placed(self.rect()).refreshed(true, true),
            None => self,
        }
    }

    /// Nothing would be left of a tree without the pane in focus exactly
    /// where the tree holds a single pane. What is left otherwise is sound in
    /// shape.
    pub proof fn lemma_pruned(self)
        requires
            self.shaped(),
        ensures
            self.pruned() is None <==> self.single_pane(),
            self.pruned() matches Some(kept) ==> {
                &&& kept.shaped()
                &&& kept.root == self.root
                &&& kept.rect() == self.rect()
                &&& kept.direction == self.direction
                &&& 1 <= kept.children.len() <= self.children.len()
            },
        decreases self,
    {
        match self.children[self.focus] {
            NodeView::Window(_) => {},
            NodeView::Container(c) => {
                c.lemma_pruned();
            },
        }
        if self.pruned() is Some {
            let kept = self.pruned()->0;
            assert forall|i: int| 0 <= i < kept.children.len() implies (#[trigger] kept.children[i] matches NodeView::Container(
                k,
            ) ==> k.shaped() && !k.root) by {
                if kept.children.len() == self.children.len() {
                    if i != self.focus {
                        assert(kept.children[i] == self.children[i]);
                    }
                } else {
                    if i < self.focus {
                        assert(kept.children[i] == self.children[i]);
                    } else {
                        assert(kept.children[i] == self.children[i + 1]);
                    }
                }
            }
        }
    }

    /// Deleting the pane in focus keeps a tree well formed.
    pub proof fn lemma_deleted(self)
        requires
            self.wf(),
        ensures
            self.deleted().wf(),
            self.deleted().rect() == self.rect(),
            self.deleted().root == self.root,
    {
        self.lemma_pruned();
        if self.pruned() is Some {
            let kept = self.pruned()->0;
            kept.lemma_placed_wf(self.rect());
            kept.placed(self.rect()).lemma_refreshed_wf(true, true);
        }
    }

    /// A split keeps a container well formed, as long as the number of its
    /// children stays one that a machine can hold.
    pub proof fn lemma_with_new_pane(self, id: Id)
        requires
            self.shaped(),
            self.rect().bounded(),
            self.children.len() < usize::MAX,
        ensures
            self.with_new_pane(id).wf(),
            self.with_new_pane(id).rect() == self.rect(),
            self.with_new_pane(id).root == self.root,
            self.with_new_pane(id).children.len() == self.children.len() + 1,
            self.with_new_pane(id).focus == self.children.len(),
            self.with_new_pane(id).focused_container() == self.with_new_pane(id),
            self.with_new_pane(id).focused_window().id == id,
            self.with_new_pane(id).focused_window().lines == Seq::<Seq<char>>::empty(),
    {
        let grown = self.grown(id);
        let n = self.children.len() as int;
        let fresh = grown.children[n]->Window_0;
        let slot = grown.framed(self.rect()).child_rect(n);
        let titled = PaneView {
            header: header_text(self.root, n, slot.x, slot.y, slot.width, slot.height),
            header_color: Color::header(true),
            ..fresh.moved(slot)
        };
        titled.rewound().lemma_rewrote_keeps(titled.lines.len());
        assert(self.with_new_pane(id).children[n] == NodeView::Window(
            fresh.moved(slot).refreshed(self.root, n, true, true),
        ));
        assert forall|i: int| 0 <= i < grown.children.len() implies (#[trigger] grown.children[i] matches NodeView::Container(
            c,
        ) ==> c.shaped() && !c.root) by {
            if i < self.children.len() {
                assert(grown.children[i] == self.children[i]);
            }
        }
        grown.lemma_placed_wf(self.rect());
        grown.placed(self.rect()).lemma_refreshed_wf(true, true);
    }
}

impl WindowContainer {
    /// Adds a pane with a border after the last child, as a container that
    /// lines its children up from left to right does.
    pub fn split_vertical(&mut self, id: Id)
        ensures
            final(self)@ == old(self)@.with_pane(id, true),
    {
        let win = Window::new_window(id, self.container_x, self.container_y, (self.width, self.height), true);
        self.payload.push(WindowPayload::Window(win));
        assert(self@.children =~= old(self)@.with_pane(id, true).children);
    }

    /// Adds a pane after the last child, as a container that stacks its
    /// children does: with a border where the container does not begin at the
    /// left edge of the screen.
    pub fn split_horizontal(&mut self, id: Id)
        ensures
            final(self)@ == old(self)@.with_pane(id, old(self)@.x > 0),
    {
        let win = Window::new_window(
            id,
            self.container_x,
            self.container_y,
            (self.width, self.height),
            self.container_x > 0,
        );
        self.payload.push(WindowPayload::Window(win));
        assert(self@.children =~= old(self)@.with_pane(id, old(self)@.x > 0).children);
    }

    /// Splits this container: adds a pane with the given id after its last
    /// child, gives it the focus, divides the container's rectangle anew among
    /// all its children and brings every pane below it up to date.
    pub fn split_here(&mut self, id: Id)
        requires
            old(self)@.shaped(),
            old(self)@.rect().bounded(),
        ensures
            final(self)@ == old(self)@.with_new_pane(id),
            final(self)@.wf(),
    {
        match self.direction {
            WindowSplitDirection::Vertical => self.split_vertical(id),
            WindowSplitDirection::Horizontal => self.split_horizontal(id),
        }
        self.focus = self.payload.len() - 1;
        assert(self@.children =~= old(self)@.grown(id).children);
        assert(self@ == old(self)@.grown(id));
        proof {
            assert(old(self)@.children.len() < usize::MAX);
            old(self)@.lemma_with_new_pane(id);
            assert forall|i: int| 0 <= i < self@.children.len() implies (#[trigger] self@.children[i] matches NodeView::Container(
                c,
            ) ==> c.shaped() && !c.root) by {
                if i < old(self)@.children.len() {
                    assert(self@.children[i] == old(self)@.children[i]);
                }
            }
        }
        let parent: (i32, i32, i32, i32) = (self.width, self.height, self.container_x, self.container_y);
        self.on_resize(parent);
        self.refresh_windows(true);
    }

    /// Splits the container that holds the pane in focus, with `id` as the id
    /// of the new pane. Nothing outside that container changes.
    pub fn split_with_id(&mut self, id: Id)
        requires
            old(self)@.wf(),
        ensures
            final(self)@ == old(self)@.split_with(id),
            final(self)@.wf(),
    {
        proof {
            old(self)@.lemma_focused_container();
        }
        let c = self.focused_container_mut();
        c.split_here(id);
        let ghost holder = c@;
        proof {
            old(self)@.lemma_with_holder(holder);
        }
    }

    /// Splits the container that holds the pane in focus: a new pane with a
    /// random id stands after its last child and holds the focus. Nothing
    /// outside that container changes.
    pub fn split(&mut self)
        requires
            old(self)@.wf(),
        ensures
            exists|id: Id| is_random(id) && final(self)@ == #[trigger] old(self)@.split_with(id),
            final(self)@.wf(),
    {
        let id = fresh_id();
        self.split_with_id(id);
    }

    /// A new container around one pane, at the origin `x`, `y` and with the
    /// pane's size. The pane is its only child and holds its focus, its axis
    /// is `Vertical`, and the pane's header is brought up to date.
    pub fn new_container(id: Id, x: i32, y: i32, window: Window, root: bool) -> (c: WindowContainer)
        ensures
            c@ == ContainerView::around(id, x as int, y as int, window@, root),
    {
        let width: i32 = window.xmax;
        let height: i32 = window.ymax;
        let mut payload: Vec<WindowPayload> = Vec::new();
        payload.push(WindowPayload::Window(window));
        let mut c = WindowContainer {
            id,
            payload,
            direction: WindowSplitDirection::Vertical,
            container_x: x,
            container_y: y,
            width,
            height,
            focus: 0,
            root,
        };
        assert(c@.children =~= seq![NodeView::Window(window@)]);
        c.refresh_windows(false);
        c
    }

    /// Sets the axis of this container to `direction`. With one child, the
    /// container takes the axis itself. With more, the pane that its focus
    /// index names goes into a new container of its own, which has the id `id`
    /// and the axis `direction` and stands where the pane stood.
    pub fn set_axis_here(&mut self, direction: WindowSplitDirection, id: Id)
        requires
            old(self)@.wf(),
            old(self)@.children[old(self)@.focus] is Window,
        ensures
            final(self)@ == old(self)@.with_axis(direction, id),
            final(self)@.wf(),
    {
        proof {
            old(self)@.lemma_with_axis(direction, id);
        }
        if self.payload.len() == 1 {
            self.direction = direction;
            assert(self@.children =~= old(self)@.children);
            return ;
        }
        let f: usize = self.focus;
        assert(old(self)@.children[f as int] == old(self).payload@[f as int]@);
        let win = self.payload.remove(f);
        match win {
            WindowPayload::Window(win_payload) => {
                let x: i32 = win_payload.x;
                let y: i32 = win_payload.y;
                let mut new = WindowContainer::new_container(id, x, y, win_payload, false);
                new.direction = direction;
                assert(new@.children =~= ContainerView::around(id, x as int, y as int, win_payload@, false).children);
                self.payload.insert(f, WindowPayload::Container(new));
                assert(self@.children =~= old(self)@.with_axis(direction, id).children);
            },
            WindowPayload::Container(_) => {
                unreached()
            },
        }
    }

    /// Sets the axis of the container that holds the pane in focus, with `id`
    /// as the id of the container that may come to stand around the pane.
    pub fn set_split_direction_with_id(&mut self, direction: WindowSplitDirection, id: Id)
        requires
            old(self)@.wf(),
        ensures
            final(self)@ == old(self)@.split_direction_set(direction, id),
            final(self)@.wf(),
    {
        proof {
            old(self)@.lemma_focused_container();
        }
        let c = self.focused_container_mut();
        c.set_axis_here(direction, id);
        let ghost holder = c@;
        proof {
            old(self)@.lemma_with_holder(holder);
        }
    }

    /// Sets the axis of the container that holds the pane in focus. Where
    /// that container has one child, it takes the axis itself. Where it has
    /// more, the pane in focus goes into a new container of its own with that
    /// axis and a random id; its siblings and the outer axis stay as they
    /// are.
    pub fn set_split_direction(&mut self, direction: WindowSplitDirection)
        requires
            old(self)@.wf(),
        ensures
            exists|id: Id|
                is_random(id) && final(self)@ == #[trigger] old(self)@.split_direction_set(direction, id),
            final(self)@.wf(),
    {
        let id = fresh_id();
        self.set_split_direction_with_id(direction, id);
    }

    /// Tells whether the tree holds one pane and no more.
    pub fn single_pane(&self) -> (b: bool)
        ensures
            b == self@.single_pane(),
        decreases self,
    {
        if self.payload.len() != 1 {
            return false;
        }
        assert(self@.children[0] == self.payload@[0]@);
        match &self.payload[0] {
            WindowPayload::Window(_) => true,
            WindowPayload::Container(c) => c.single_pane(),
        }
    }

    /// Takes child `i` out of the container and moves the focus index back by
    /// one unless it was zero.
    pub fn remove_child(&mut self, i: usize)
        requires
            i < old(self)@.children.len(),
        ensures
            final(self)@ == old(self)@.without_child(i as int),
    {
        self.payload.remove(i);
        if self.focus > 0 {
            self.focus = self.focus - 1;
        }
        assert(self@.children =~= old(self)@.children.remove(i as int));
    }

    /// Takes the pane in focus out of the tree, together with every container
    /// that it leaves empty. The tree holds more than that one pane. No
    /// rectangle changes.
    pub fn prune(&mut self)
        requires
            old(self)@.shaped(),
            !old(self)@.single_pane(),
        ensures
            Some(final(self)@) == old(self)@.pruned(),
        decreases *old(self),
    {
        let f: usize = self.focus;
        assert(old(self)@.children[f as int] == old(self).payload@[f as int]@);
        proof {
            old(self)@.lemma_pruned();
        }
        let last_of_child: bool = match &self.payload[f] {
            WindowPayload::Window(_) => true,
            WindowPayload::Container(c) => {
                proof {
                    c@.lemma_pruned();
                }
                c.single_pane()
            },
        };
        if last_of_child {
            self.remove_child(f);
        } else {
            proof {
                let before = *old(self);
                assert forall|after: WindowContainer|
                    after.payload@.len() == before.payload@.len() && (forall|j: int|
                        0 <= j < before.payload@.len() && j != f ==> after.payload@[j]
                            == before.payload@[j]) implies (#[trigger] container_view(after)).children
                    == before@.children.update(f as int, payload_view(after.payload@[f as int])) by {
                    assert(container_view(after).children =~= before@.children.update(
                        f as int,
                        payload_view(after.payload@[f as int]),
                    ));
                }
            }
            match &mut self.payload[f] {
                WindowPayload::Container(c) => c.prune(),
                WindowPayload::Window(_) => unreached(),
            }
        }
    }

    /// Deletes the pane in focus. The last pane of a tree is never deleted:
    /// the call then changes nothing. Otherwise the pane leaves the container
    /// that holds it, and that container's focus index goes back by one
    /// unless it was zero. A container that is left without a child leaves its
    /// own parent in the same way. Then the tree is laid out anew in its
    /// rectangle and every pane is brought up to date.
    pub fn delete(&mut self)
        requires
            old(self)@.wf(),
        ensures
            final(self)@ == old(self)@.deleted(),
            final(self)@.wf(),
    {
        proof {
            old(self)@.lemma_pruned();
            old(self)@.lemma_deleted();
        }
        if self.single_pane() {
            return ;
        }
        self.prune();
        let parent: (i32, i32, i32, i32) = (self.width, self.height, self.container_x, self.container_y);
        self.on_resize(parent);
        self.refresh_windows(true);
    }
}

} // verus!
