//! What is done to the tree as a whole: making it, fitting it to a terminal
//! of another size, and writing to the pane in focus.

use vstd::prelude::*;
use vstd::string::StringExecFns;
use crate::container::{ContainerView, NodeView, WindowContainer};
use crate::geometry::Rect;
use crate::ident::{Id, fresh_id, is_random};
use crate::window::{PaneView, Window};

verus! {

/// The key by which the terminal reports that its size has changed.
pub const RESIZE: i32 = 0x19a;

/// The key by which the terminal reports that its size has changed, as curses
/// has it.
///
/// Hands out the constant `ncurses::KEY_RESIZE`. Nothing is proved of this
/// function. The contract claims that the constant is `0x19a`, as the
/// crate's table of key codes gives it.
#[verifier::external_body]
fn resize_key() -> (key: i32)
    ensures
        key == RESIZE,
{
    ncurses::KEY_RESIZE
}

impl ContainerView {
    /// The root of a new tree on a screen of the given size: one container
    /// with one pane, both as large as the screen.
    pub open spec fn initial(id: Id, pane: Id, width: int, height: int) -> ContainerView {
        Self::around(
            id,
            0,
            0,
            PaneView {
                id: pane,
                border: false,
                x: 0,
                y: 0,
                width,
                height,
                cursor: (0, 0),
                lines: Seq::empty(),
                header: "New window"@,
                header_color: crate::window::Color::StatusSelected,
            },
            true,
        )
    }

    /// The tree fitted to a screen of the given size: laid out from the
    /// screen's first cell, with every pane brought up to date and its buffer
    /// written again.
    pub open spec fn resized(self, width: int, height: int) -> ContainerView {
        self.placed(Rect { x: 0, y: 0, width, height }).refreshed(true, true)
    }

    /// The tree after `text` was printed in the pane in focus.
    pub open spec fn printed(self, text: Seq<char>) -> ContainerView {
        self.with_focused_window(self.focused_window().printed(text))
    }

    /// The tree after `text` was printed over the last line of the pane in
    /// focus.
    pub open spec fn overwritten(self, text: Seq<char>) -> ContainerView {
        self.with_focused_window(self.focused_window().overwritten(text))
    }

    /// The tree with `header` as the header of the pane in focus.
    pub open spec fn with_header(self, header: Seq<char>) -> ContainerView {
        self.with_focused_window(PaneView { header, ..self.focused_window() })
    }

    /// The tree after the terminal handed out the key `key`: fitted to the
    /// screen's size where the key is the one that reports a new size, and as
    /// it was otherwise.
    pub open spec fn after_key(self, key: int, width: int, height: int) -> ContainerView {
        if key == RESIZE {
            self.resized(width, height)
        } else {
            self
        }
    }

    /// A tree stays well formed where another pane with the same rectangle
    /// takes the place of the pane in focus.
    pub proof fn lemma_with_focused_window(self, pane: PaneView)
        requires
            self.wf(),
            pane.rect() == self.focused_window().rect(),
        ensures
            self.with_focused_window(pane).wf(),
            self.with_focused_window(pane).rect() == self.rect(),
            self.with_focused_window(pane).root == self.root,
            self.with_focused_window(pane).focused_window() == pane,
    {
        self.lemma_focused_container();
        let holder = self.focused_container();
        let new = holder.with_child(holder.focus, NodeView::Window(pane));
        assert forall|i: int| 0 <= i < new.children.len() implies {
            &&& (#[trigger] new.children[i]).rect() == new.child_rect(i)
            &&& (new.children[i] matches NodeView::Container(k) ==> k.shaped() && !k.root && k.laid_out())
        } by {
            assert(holder.children[i].rect() == holder.child_rect(i));
            if i != holder.focus {
                assert(new.children[i] == holder.children[i]);
            }
        }
        self.lemma_with_holder(new);
    }

    /// A tree that is sound in shape is well formed once it is fitted to a
    /// screen.
    pub proof fn lemma_resized(self, width: int, height: int)
        requires
            self.shaped(),
            0 <= width <= i32::MAX,
            0 <= height <= i32::MAX,
        ensures
            self.resized(width, height).wf(),
            self.resized(width, height).rect() == (Rect { x: 0, y: 0, width, height }),
            self.resized(width, height).root == self.root,
    {
        let to = Rect { x: 0, y: 0, width, height };
        self.lemma_placed_wf(to);
        self.placed(to).lemma_refreshed_wf(true, true);
    }
}

impl WindowContainer {
    /// The root of a new tree on a screen of the given size: one container
    /// with the id `id`, and in it one pane with the id `pane`, both as large
    /// as the screen.
    pub fn new_with_ids(id: Id, pane: Id, width: i32, height: i32) -> (c: WindowContainer)
        requires
            0 <= width,
            0 <= height,
        ensures
            c@ == ContainerView::initial(id, pane, width as int, height as int),
            c@.wf(),
    {
        let win = Window::new(pane, width, height);
        proof {
            ContainerView::lemma_around(id, win@, true);
        }
        WindowContainer::new_container(id, 0, 0, win, true)
    }

    /// The root of a new tree on a screen of the given size, with random ids
    /// for the container and its pane.
    pub fn new(width: i32, height: i32) -> (c: WindowContainer)
        requires
            0 <= width,
            0 <= height,
        ensures
            exists|id: Id, pane: Id|
                is_random(id) && is_random(pane) && c@ == #[trigger] ContainerView::initial(
                    id,
                    pane,
                    width as int,
                    height as int,
                ),
            c@.wf(),
    {
        let id = fresh_id();
        let pane = fresh_id();
        WindowContainer::new_with_ids(id, pane, width, height)
    }

    /// Fits the tree to a terminal of the given size: lays it out from the
    /// screen's first cell, brings every pane up to date and writes every
    /// buffer again.
    pub fn resize(&mut self, new_width: i32, new_height: i32)
        requires
            old(self)@.shaped(),
            0 <= new_width,
            0 <= new_height,
        ensures
            final(self)@ == old(self)@.resized(new_width as int, new_height as int),
            final(self)@.wf(),
    {
        proof {
            old(self)@.lemma_resized(new_width as int, new_height as int);
        }
        self.on_resize((new_width, new_height, 0, 0));
        self.refresh_windows(true);
    }

    /// Prints `s` in the pane in focus. Returns the column and row at which
    /// the text stands in that pane, or `None` where the pane is full or too
    /// narrow and the write was dropped.
    pub fn print(&mut self, s: &str) -> (at: Option<(i32, i32)>)
        requires
            old(self)@.wf(),
        ensures
            final(self)@ == old(self)@.printed(s@),
            final(self)@.wf(),
            at == if old(self)@.focused_window().can_write() {
                Some(
                    (
                        old(self)@.focused_window().cursor.0 as i32,
                        old(self)@.focused_window().cursor.1 as i32,
                    ),
                )
            } else {
                None
            },
    {
        proof {
            old(self)@.lemma_with_focused_window(old(self)@.focused_window().printed(s@));
        }
        let f = self.focused_window_mut();
        f.print(s)
    }

    /// Prints `s` over the last line of the pane in focus. Returns the column
    /// and row at which the text stands in that pane.
    pub fn print_overwriting(&mut self, s: &str) -> (at: (i32, i32))
        requires
            old(self)@.wf(),
        ensures
            final(self)@ == old(self)@.overwritten(s@),
            final(self)@.wf(),
            at == (0i32, old(self)@.focused_window().cursor.1 as i32),
    {
        proof {
            old(self)@.lemma_with_focused_window(old(self)@.focused_window().overwritten(s@));
        }
        let f = self.focused_window_mut();
        f.print_overwriting(s)
    }

    /// Gives the pane in focus the header `header`. The header stays until
    /// the panes are next brought up to date.
    pub fn set_header(&mut self, header: &str)
        requires
            old(self)@.wf(),
        ensures
            final(self)@ == old(self)@.with_header(header@),
            final(self)@.wf(),
    {
        proof {
            old(self)@.lemma_with_focused_window(
                PaneView { header: header@, ..old(self)@.focused_window() },
            );
        }
        let w = self.focused_window_mut();
        w.header = String::from_str(header);
        assert(w@.lines =~= old(self)@.focused_window().lines);
    }

    /// Takes the key that the terminal handed out for the pane in focus, and
    /// hands it on. Where it is the key by which the terminal reports a new
    /// size, the tree is first fitted to the size given.
    pub fn wait_for_key(&mut self, key: i32, width: i32, height: i32) -> (ret: i32)
        requires
            old(self)@.wf(),
            key == RESIZE ==> 0 <= width && 0 <= height,
        ensures
            ret == key,
            final(self)@ == old(self)@.after_key(key as int, width as int, height as int),
            final(self)@.wf(),
    {
        if key == resize_key() {
            self.resize(width, height);
        }
        key
    }
}

} // verus!
