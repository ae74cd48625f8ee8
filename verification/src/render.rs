//! Bringing what the panes show up to date: the header of each pane, the
//! highlight of the one in focus, and the text of its buffer.

use vstd::prelude::*;
use crate::container::{ContainerView, NodeView, WindowContainer, WindowPayload};
use crate::text::{header_text, make_header};
use crate::window::{Color, PaneView, Window};

verus! {

impl PaneView {
    /// The pane brought up to date as child `index` of a container: its header
    /// names its place and its rectangle and is highlighted where the pane is
    /// in focus. With `reprint`, the buffer is written again from the first
    /// cell.
    pub open spec fn refreshed(self, root: bool, index: int, focused: bool, reprint: bool) -> PaneView {
        let titled = PaneView {
            header: header_text(root, index, self.x, self.y, self.width, self.height),
            header_color: Color::header(focused),
            ..self
        };
        if reprint {
            titled.reprinted()
        } else {
            titled
        }
    }
}

impl ContainerView {
    /// The tree with every pane brought up to date. `in_focus_chain` says
    /// whether the focus leads to this container; a child is in focus where it
    /// does and the container's focus index names the child.
    pub open spec fn refreshed(self, reprint: bool, in_focus_chain: bool) -> ContainerView
        decreases self,
    {
        ContainerView {
            children: Seq::new(
                self.children.len(),
                |i: int|
                    if 0 <= i < self.children.len() {
                        match self.children[i] {
                            NodeView::Window(p) => NodeView::Window(
                                p.refreshed(self.root, i, in_focus_chain && self.focus == i, reprint),
                            ),
                            NodeView::Container(c) => NodeView::Container(
                                c.refreshed(reprint, in_focus_chain && self.focus == i),
                            ),
                        }
                    } else {
                        self.children[i]
                    },
            ),
            ..self
        }
    }

    /// Bringing the panes up to date changes neither the shape of the tree
    /// nor its geometry.
    pub proof fn lemma_refreshed_wf(self, reprint: bool, in_focus_chain: bool)
        ensures
            self.refreshed(reprint, in_focus_chain).children.len() == self.children.len(),
            self.refreshed(reprint, in_focus_chain).focus == self.focus,
            self.refreshed(reprint, in_focus_chain).rect() == self.rect(),
            self.refreshed(reprint, in_focus_chain).direction == self.direction,
            self.refreshed(reprint, in_focus_chain).root == self.root,
            self.shaped() ==> self.refreshed(reprint, in_focus_chain).shaped(),
            self.laid_out() ==> self.refreshed(reprint, in_focus_chain).laid_out(),
        decreases self,
    {
        let out = self.refreshed(reprint, in_focus_chain);
        assert forall|i: int| 0 <= i < out.children.len() implies {
            &&& (#[trigger] out.children[i]).rect() == self.children[i].rect()
            &&& (out.children[i] is Container <==> self.children[i] is Container)
            &&& (out.children[i] matches NodeView::Container(c) ==> {
                &&& self.children[i] matches NodeView::Container(b)
                &&& c.root == b.root
                &&& (b.shaped() ==> c.shaped())
                &&& (b.laid_out() ==> c.laid_out())
            })
        } by {
            match self.children[i] {
                NodeView::Window(p) => {
                    let titled = PaneView {
                        header: header_text(self.root, i, p.x, p.y, p.width, p.height),
                        header_color: Color::header(in_focus_chain && self.focus == i),
                        ..p
                    };
                    titled.rewound().lemma_rewrote_keeps(titled.lines.len());
                },
                NodeView::Container(c) => {
                    c.lemma_refreshed_wf(reprint, in_focus_chain && self.focus == i);
                },
            }
        }
        if self.laid_out() {
            assert forall|i: int| 0 <= i < out.children.len() implies (#[trigger] out.children[i]).rect()
                == out.child_rect(i) by {
                assert(self.children[i].rect() == self.child_rect(i));
            }
        }
    }
}

impl Window {
    /// Brings the pane up to date as child `index` of a container: writes its
    /// header, highlights it where the pane is in focus and, with `reprint`,
    /// writes the buffer again from the first cell.
    pub fn refresh(&mut self, root: bool, index: usize, focused: bool, reprint: bool)
        ensures
            final(self)@ == old(self)@.refreshed(root, index as int, focused, reprint),
    {
        self.header_color = if focused {
            Color::StatusSelected
        } else {
            Color::Status
        };
        self.header = make_header(root, index, self.x, self.y, self.xmax, self.ymax);
        assert(self@.lines =~= old(self)@.lines);
        if reprint {
            self.reprint_buffer();
        }
    }
}

impl WindowContainer {
    /// Brings every pane of the tree up to date, taking this container as the
    /// one from which the focus starts.
    pub fn refresh_windows(&mut self, reprint: bool)
        ensures
            final(self)@ == old(self)@.refreshed(reprint, true),
    {
        self.refresh_windows_internal(reprint, true)
    }

    /// Brings every pane of the tree up to date. `in_focus_chain` says
    /// whether the focus leads to this container.
    pub fn refresh_windows_internal(&mut self, reprint: bool, in_focus_chain: bool)
        ensures
            final(self)@ == old(self)@.refreshed(reprint, in_focus_chain),
        decreases *old(self),
    {
        let ghost target = old(self)@.refreshed(reprint, in_focus_chain);
        let n: usize = self.payload.len();
        let mut i: usize = 0;
        while i < n
            invariant
                i <= n,
                n == old(self).payload@.len(),
                n == self.payload@.len(),
                target == old(self)@.refreshed(reprint, in_focus_chain),
                self.id == old(self).id,
                self.direction == old(self).direction,
                self.focus == old(self).focus,
                self.root == old(self).root,
                self.width == old(self).width,
                self.height == old(self).height,
                self.container_x == old(self).container_x,
                self.container_y == old(self).container_y,
                forall|j: int| 0 <= j < i ==> (#[trigger] self.payload@[j])@ == target.children[j],
                forall|j: int| i <= j < n ==> #[trigger] self.payload@[j] == old(self).payload@[j],
            decreases n - i,
        {
            let focused: bool = in_focus_chain && self.focus == i;
            let root: bool = self.root;
            assert(old(self)@.children[i as int] == old(self).payload@[i as int]@);
            match &mut self.payload[i] {
                WindowPayload::Window(w) => {
                    w.refresh(root, i, focused, reprint);
                },
                WindowPayload::Container(c) => {
                    c.refresh_windows_internal(reprint, focused);
                },
            }
            i = i + 1;
        }
        assert(self@.children =~= target.children);
    }
}

} // verus!
