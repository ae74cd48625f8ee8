//! Laws of the layout: what holds of every well-formed tree, and how the
//! operations on it relate.

use vstd::prelude::*;
use crate::container::{ContainerView, NodeView};
use crate::geometry::{
    Rect, WindowSplitDirection, lemma_slot_bounds, slot_origin, slot_rest, slot_size,
};
use crate::ident::Id;
use crate::text::header_text;
use crate::window::{Color, PaneView};

verus! {

impl ContainerView {
    /// The extent of child `i` along the container's axis.
    pub open spec fn child_extent(self, i: int) -> int {
        match self.direction {
            WindowSplitDirection::Horizontal => self.children[i].rect().height,
            WindowSplitDirection::Vertical => self.children[i].rect().width,
        }
    }

    /// Where child `i` begins along the container's axis.
    pub open spec fn child_origin(self, i: int) -> int {
        match self.direction {
            WindowSplitDirection::Horizontal => self.children[i].rect().y,
            WindowSplitDirection::Vertical => self.children[i].rect().x,
        }
    }

    /// The extent of child `i` across the container's axis.
    pub open spec fn child_cross_extent(self, i: int) -> int {
        match self.direction {
            WindowSplitDirection::Horizontal => self.children[i].rect().width,
            WindowSplitDirection::Vertical => self.children[i].rect().height,
        }
    }

    /// The extent of the container across its axis.
    pub open spec fn cross_extent(self) -> int {
        match self.direction {
            WindowSplitDirection::Horizontal => self.width,
            WindowSplitDirection::Vertical => self.height,
        }
    }

    /// The extents of the first `k` children along the axis, added up.
    pub open spec fn extent_sum(self, k: nat) -> int
        decreases k,
    {
        if k == 0 {
            0
        } else {
            self.extent_sum((k - 1) as nat) + self.child_extent(k - 1)
        }
    }

    /// The node to which `path` leads from this container, one child index
    /// after the other, or `None` where it leads nowhere.
    pub open spec fn node_at(self, path: Seq<int>) -> Option<NodeView>
        decreases path.len(),
    {
        if path.len() == 0 || !(0 <= path[0] < self.children.len()) {
            None
        } else if path.len() == 1 {
            Some(self.children[path[0]])
        } else {
            match self.children[path[0]] {
                NodeView::Window(_) => None,
                NodeView::Container(c) => c.node_at(path.drop_first()),
            }
        }
    }

    /// The first `k` children of a well-formed container take `k` slots, and
    /// all of them together take all the slots and the rest.
    proof fn lemma_extent_sum(self, k: nat)
        requires
            self.wf(),
            k <= self.children.len(),
        ensures
            k < self.children.len() ==> self.extent_sum(k) == k * slot_size(
                self.axis_extent(),
                self.children.len() as int,
            ),
            k == self.children.len() ==> self.extent_sum(k) == k * slot_size(
                self.axis_extent(),
                self.children.len() as int,
            ) + slot_rest(self.axis_extent(), self.children.len() as int),
        decreases k,
    {
        let n: int = self.children.len() as int;
        let size: int = slot_size(self.axis_extent(), n);
        if k > 0 {
            self.lemma_extent_sum((k - 1) as nat);
            assert(self.children[k - 1].rect() == self.child_rect(k - 1));
            assert(k * size == (k - 1) * size + size) by (nonlinear_arith);
        } else {
            assert(0 * size == 0) by (nonlinear_arith);
        }
    }
}

/// The children of a container divide it among themselves.
///
/// In every well-formed container, each child but the last has the extent of
/// one slot along the container's axis, which is the container's extent
/// divided by the number of its children. The last child has one slot and,
/// on top of it, all that the division leaves. The children follow one
/// another without a gap from the container's origin, their extents along the
/// axis add up to the extent of the container, and each child has the
/// container's whole extent across the axis. The same holds in every
/// container below.
pub proof fn law_children_partition(c: ContainerView)
    requires
        c.wf(),
    ensures
        ({
            let n: int = c.children.len() as int;
            let slot: int = c.axis_extent() / n;
            &&& forall|i: int| 0 <= i < n - 1 ==> #[trigger] c.child_extent(i) == slot
            &&& c.child_extent(n - 1) == slot + c.axis_extent() % n
            &&& c.child_extent(n - 1) == c.axis_extent() - (n - 1) * slot
            &&& forall|i: int| 0 <= i < n ==> #[trigger] c.child_origin(i) == c.axis_origin() + i * slot
            &&& c.extent_sum(c.children.len()) == c.axis_extent()
            &&& forall|i: int| 0 <= i < n ==> #[trigger] c.child_cross_extent(i) == c.cross_extent()
            &&& forall|i: int|
                0 <= i < n ==> (#[trigger] c.children[i] matches NodeView::Container(k) ==> k.wf())
        }),
{
    let n: int = c.children.len() as int;
    let size: int = c.axis_extent() / n;
    reveal(slot_size);
    lemma_slot_bounds(c.axis_extent(), n, 0);
    assert forall|i: int| 0 <= i < n - 1 implies #[trigger] c.child_extent(i) == size by {
        assert(c.children[i].rect() == c.child_rect(i));
    }
    assert forall|i: int| 0 <= i < n implies #[trigger] c.child_origin(i) == c.axis_origin() + i * size by {
        reveal(slot_origin);
        assert(c.children[i].rect() == c.child_rect(i));
    }
    assert forall|i: int| 0 <= i < n implies #[trigger] c.child_cross_extent(i) == c.cross_extent() by {
        assert(c.children[i].rect() == c.child_rect(i));
    }
    c.lemma_extent_sum(c.children.len());
    assert(c.children[n - 1].rect() == c.child_rect(n - 1));
    assert((n - 1) * size == n * size - size) by (nonlinear_arith);
}

/// A split gives the focus to the new pane.
///
/// After a split of a well-formed tree, the pane in focus is the new pane: it
/// has the id that the split was given, and its buffer is empty. It stands in
/// the container that held the pane in focus before, which has one child
/// more.
pub proof fn law_split_focuses_new_pane(c: ContainerView, id: Id)
    requires
        c.wf(),
        c.focused_container().children.len() < usize::MAX,
    ensures
        c.split_with(id).wf(),
        c.split_with(id).focused_window().id == id,
        c.split_with(id).focused_window().lines == Seq::<Seq<char>>::empty(),
        c.split_with(id).focused_container().id == c.focused_container().id,
        c.split_with(id).focused_container().children.len() == c.focused_container().children.len() + 1,
{
    c.lemma_focused_container();
    let holder = c.focused_container();
    holder.lemma_with_new_pane(id);
    c.lemma_with_holder(holder.with_new_pane(id));
}

/// One pane holds the focus.
///
/// In every tree that is sound in shape, the focus path leads from the top to
/// a pane by focus indices alone, that pane is the pane in focus, and no
/// other path does so.
pub proof fn law_one_pane_in_focus(c: ContainerView, path: Seq<int>)
    requires
        c.shaped(),
    ensures
        c.follows_focus(c.focus_path()),
        c.node_at(c.focus_path()) == Some(NodeView::Window(c.focused_window())),
        c.follows_focus(path) ==> path == c.focus_path(),
    decreases c,
{
    match c.children[c.focus] {
        NodeView::Window(_) => {
            if c.follows_focus(path) {
                assert(path =~= c.focus_path());
            }
        },
        NodeView::Container(k) => {
            law_one_pane_in_focus(k, path.drop_first());
            assert(c.focus_path().drop_first() =~= k.focus_path());
            assert(k.focus_path().len() >= 1);
            if c.follows_focus(path) {
                assert(path =~= seq![c.focus] + path.drop_first());
            }
        },
    }
}

/// Writing the first `k` lines of a buffer again leaves the cursor where the
/// pane's size, the cursor before and those lines put it, whatever else the
/// pane holds.
proof fn lemma_rewrote_cursor(p: PaneView, q: PaneView, k: nat)
    requires
        p.width == q.width,
        p.height == q.height,
        p.cursor == q.cursor,
        k <= p.lines.len(),
        k <= q.lines.len(),
        forall|j: int| 0 <= j < k ==> p.lines[j] == q.lines[j],
    ensures
        p.rewrote(k) == (PaneView { cursor: p.rewrote(k).cursor, ..p }),
        q.rewrote(k) == (PaneView { cursor: p.rewrote(k).cursor, ..q }),
    decreases k,
{
    if k > 0 {
        lemma_rewrote_cursor(p, q, (k - 1) as nat);
    }
}

/// Writing a buffer again twice is writing it again once.
///
/// Each replay of a pane's buffer starts at the first cell. So after one
/// replay a second one changes nothing: not the lines, not the cursor.
pub proof fn law_reprint_idempotent(p: PaneView)
    ensures
        p.reprinted().reprinted() == p.reprinted(),
        p.reprinted().lines == p.lines,
        p.reprinted() == p.rewound().reprinted(),
{
    p.rewound().lemma_rewrote_keeps(p.lines.len());
}

/// A pane that was moved to a rectangle and brought up to date with its
/// buffer written again is as it would be after the same was done to it once
/// more.
proof fn lemma_pane_settles(p: PaneView, to: Rect, root: bool, index: int, focused: bool)
    ensures
        p.moved(to).refreshed(root, index, focused, true).moved(to).refreshed(root, index, focused, true)
            == p.moved(to).refreshed(root, index, focused, true),
{
    let once = p.moved(to).refreshed(root, index, focused, true);
    let titled = PaneView {
        header: header_text(root, index, to.x, to.y, to.width, to.height),
        header_color: Color::header(focused),
        ..p.moved(to)
    };
    lemma_rewrote_cursor(titled.rewound(), titled.rewound(), titled.lines.len());
    let again = PaneView {
        header: header_text(root, index, to.x, to.y, to.width, to.height),
        header_color: Color::header(focused),
        ..once.moved(to)
    };
    assert(again.rewound() == titled.rewound());
}

/// A node moved to the rectangle `slot` and brought up to date, with its
/// buffers written again, as child `index` of a container.
pub open spec fn settled_node(node: NodeView, slot: Rect, root: bool, index: int, focused: bool) -> NodeView {
    match node {
        NodeView::Window(p) => NodeView::Window(p.moved(slot).refreshed(root, index, focused, true)),
        NodeView::Container(k) => NodeView::Container(k.placed(slot).refreshed(true, focused)),
    }
}

/// What laying out and bringing up to date does to a container: its own
/// values but its rectangle stay, and each child is settled in the rectangle
/// that belongs to it.
proof fn lemma_settled_child(c: ContainerView, to: Rect, in_focus_chain: bool, i: int)
    requires
        0 <= i < c.children.len(),
    ensures
        c.placed(to).refreshed(true, in_focus_chain) == (ContainerView {
            children: c.placed(to).refreshed(true, in_focus_chain).children,
            ..c.framed(to)
        }),
        c.placed(to).refreshed(true, in_focus_chain).children.len() == c.children.len(),
        c.placed(to).refreshed(true, in_focus_chain).children[i] == settled_node(
            c.children[i],
            c.framed(to).child_rect(i),
            c.root,
            i,
            in_focus_chain && c.focus == i,
        ),
{
}

/// The rectangle of a child depends on the container's axis, its rectangle
/// and the number of its children alone.
proof fn lemma_child_rect_same(a: ContainerView, b: ContainerView, i: int)
    requires
        a.direction == b.direction,
        a.rect() == b.rect(),
        a.children.len() == b.children.len(),
    ensures
        a.child_rect(i) == b.child_rect(i),
{
}

/// A container that covers the rectangle `to`, and each of whose children is
/// as settling it in its own rectangle makes it, is as laying it out in `to`
/// and bringing it up to date makes it.
proof fn lemma_settled_fixed(s: ContainerView, to: Rect, in_focus_chain: bool)
    requires
        s.rect() == to,
        forall|i: int|
            0 <= i < s.children.len() ==> settled_node(
                #[trigger] s.children[i],
                s.child_rect(i),
                s.root,
                i,
                in_focus_chain && s.focus == i,
            ) == s.children[i],
    ensures
        s.placed(to).refreshed(true, in_focus_chain) == s,
{
    let again = s.placed(to).refreshed(true, in_focus_chain);
    assert(s.framed(to) == s);
    assert forall|i: int| 0 <= i < s.children.len() implies #[trigger] again.children[i] == s.children[i] by {
        lemma_settled_child(s, to, in_focus_chain, i);
    }
    assert(again.children =~= s.children);
}

/// A tree that was laid out in a rectangle and brought up to date with every
/// buffer written again is as it would be after the same was done to it once
/// more.
proof fn lemma_tree_settles(c: ContainerView, to: Rect, in_focus_chain: bool)
    ensures
        c.placed(to).refreshed(true, in_focus_chain).placed(to).refreshed(true, in_focus_chain) == c.placed(
            to,
        ).refreshed(true, in_focus_chain),
    decreases c,
{
    let once = c.placed(to).refreshed(true, in_focus_chain);
    if c.children.len() > 0 {
        lemma_settled_child(c, to, in_focus_chain, 0);
    }
    assert forall|i: int| 0 <= i < once.children.len() implies settled_node(
        #[trigger] once.children[i],
        once.child_rect(i),
        once.root,
        i,
        in_focus_chain && once.focus == i,
    ) == once.children[i] by {
        let slot = c.framed(to).child_rect(i);
        let chain = in_focus_chain && c.focus == i;
        lemma_settled_child(c, to, in_focus_chain, i);
        lemma_child_rect_same(once, c.framed(to), i);
        match c.children[i] {
            NodeView::Window(p) => {
                lemma_pane_settles(p, slot, c.root, i, chain);
            },
            NodeView::Container(k) => {
                lemma_tree_settles(k, slot, chain);
            },
        }
    }
    lemma_settled_fixed(once, to, in_focus_chain);
}

/// Fitting a tree to a screen twice is the same as fitting it once.
///
/// After a resize to a width and a height, another resize to the same width
/// and height changes nothing: no rectangle, no header, no cursor.
pub proof fn law_resize_idempotent(c: ContainerView, width: int, height: int)
    ensures
        c.resized(width, height).resized(width, height) == c.resized(width, height),
{
    lemma_tree_settles(c, Rect { x: 0, y: 0, width, height }, true);
}

/// A pane that is as its place in the tree makes it stays so when a text is
/// printed in it: writing its buffer again from the first cell puts the
/// cursor where the print left it.
proof fn lemma_pane_print_settled(p: PaneView, to: Rect, root: bool, index: int, focused: bool, text: Seq<char>)
    requires
        p.moved(to).refreshed(root, index, focused, true) == p,
    ensures
        p.printed(text).moved(to).refreshed(root, index, focused, true) == p.printed(text),
{
    let q = p.printed(text);
    let n = p.lines.len();
    let titled_p = PaneView {
        header: header_text(root, index, to.x, to.y, to.width, to.height),
        header_color: Color::header(focused),
        ..p.moved(to)
    };
    let titled_q = PaneView {
        header: header_text(root, index, to.x, to.y, to.width, to.height),
        header_color: Color::header(focused),
        ..q.moved(to)
    };
    lemma_rewrote_cursor(titled_p.rewound(), titled_q.rewound(), n);
    assert(titled_q.lines == p.lines.push(text));
    assert(titled_q.rewound().rewrote((n + 1) as nat) == titled_q.rewound().rewrote(n).wrote(text));
    let before_p = titled_p.rewound().rewrote(n);
    let before_q = titled_q.rewound().rewrote(n);
    assert(before_p == p);
    assert(before_q == (PaneView { lines: p.lines.push(text), ..p }));
}

/// Printing in the pane in focus changes the child that the focus index
/// names, and nothing else of the container.
proof fn lemma_printed_child(c: ContainerView, text: Seq<char>)
    requires
        c.shaped(),
    ensures
        c.printed(text) == c.with_child(
            c.focus,
            match c.children[c.focus] {
                NodeView::Window(p) => NodeView::Window(p.printed(text)),
                NodeView::Container(k) => NodeView::Container(k.printed(text)),
            },
        ),
{
}

/// A tree that is as a resize leaves it stays so when a text is printed in
/// the pane in focus.
proof fn lemma_print_settled(c: ContainerView, to: Rect, in_focus_chain: bool, text: Seq<char>)
    requires
        c.shaped(),
        c.placed(to).refreshed(true, in_focus_chain) == c,
    ensures
        c.printed(text).placed(to).refreshed(true, in_focus_chain) == c.printed(text),
    decreases c,
{
    let f = c.focus;
    let after = c.printed(text);
    let again = after.placed(to).refreshed(true, in_focus_chain);
    lemma_printed_child(c, text);
    lemma_settled_child(c, to, in_focus_chain, f);
    lemma_settled_child(after, to, in_focus_chain, f);
    assert(again.children.len() == after.children.len());
    assert forall|i: int| 0 <= i < after.children.len() implies #[trigger] again.children[i]
        == after.children[i] by {
        let slot = c.framed(to).child_rect(i);
        let chain = in_focus_chain && c.focus == i;
        lemma_settled_child(c, to, in_focus_chain, i);
        lemma_settled_child(after, to, in_focus_chain, i);
        lemma_child_rect_same(after.framed(to), c.framed(to), i);
        if i == f {
            match c.children[f] {
                NodeView::Window(p) => {
                    lemma_pane_print_settled(p, slot, c.root, f, chain, text);
                },
                NodeView::Container(k) => {
                    lemma_print_settled(k, slot, chain, text);
                },
            }
        } else {
            assert(after.children[i] == c.children[i]);
        }
    }
    assert(again.children =~= after.children);
}

/// Printing and then resizing to the same size shows what the print showed.
///
/// Take a tree as a resize to a width and a height leaves it. After a text is
/// printed in the pane in focus, a resize to the same width and height writes
/// every buffer again and arrives at the very same tree: every pane has the
/// lines, the cursor and the header that it had after the print.
pub proof fn law_print_then_resize(c: ContainerView, width: int, height: int, text: Seq<char>)
    requires
        c.shaped(),
        c.resized(width, height) == c,
    ensures
        c.printed(text).resized(width, height) == c.printed(text),
        c.printed(text).focused_window().lines == c.focused_window().lines.push(text),
{
    lemma_print_settled(c, Rect { x: 0, y: 0, width, height }, true, text);
    c.lemma_focused_container();
    let holder = c.focused_container();
    let new = holder.with_child(holder.focus, NodeView::Window(c.focused_window().printed(text)));
    assert forall|i: int| 0 <= i < new.children.len() implies (#[trigger] new.children[i] matches NodeView::Container(
        k,
    ) ==> k.shaped() && !k.root) by {
        if i != holder.focus {
            assert(new.children[i] == holder.children[i]);
        }
    }
    c.lemma_with_holder(new);
}

/// The pane in focus of a tree that was laid out and brought up to date is
/// the pane that was in focus before, settled in some rectangle.
proof fn lemma_settled_focus(c: ContainerView, to: Rect, in_focus_chain: bool)
    requires
        c.shaped(),
    ensures
        exists|slot: Rect, root: bool, index: int, focused: bool|
            c.placed(to).refreshed(true, in_focus_chain).focused_window() == #[trigger] c.focused_window().moved(
                slot,
            ).refreshed(root, index, focused, true),
    decreases c,
{
    let f = c.focus;
    let slot = c.framed(to).child_rect(f);
    let chain = in_focus_chain && c.focus == f;
    lemma_settled_child(c, to, in_focus_chain, f);
    let out = c.placed(to).refreshed(true, in_focus_chain);
    match c.children[f] {
        NodeView::Window(p) => {
            assert(out.focused_window() == p.moved(slot).refreshed(c.root, f, chain, true));
        },
        NodeView::Container(k) => {
            lemma_settled_focus(k, slot, chain);
            assert(out.focused_window() == k.placed(slot).refreshed(true, chain).focused_window());
        },
    }
}

/// A resize keeps what the panes hold and writes it again.
///
/// After a resize, the pane in focus is the pane that was in focus before,
/// with the same lines in its buffer, and its cursor stands where writing
/// those lines again from the first cell leaves it. So a text that was
/// printed before the resize is in the buffer after it, behind the lines that
/// were there before.
pub proof fn law_resize_keeps_buffer(c: ContainerView, width: int, height: int, text: Seq<char>)
    requires
        c.wf(),
    ensures
        c.resized(width, height).focused_window().id == c.focused_window().id,
        c.resized(width, height).focused_window().lines == c.focused_window().lines,
        c.resized(width, height).focused_window() == c.resized(width, height).focused_window().reprinted(),
        c.printed(text).resized(width, height).focused_window().lines == c.focused_window().lines.push(text),
{
    let to = Rect { x: 0, y: 0, width, height };
    lemma_settled_focus(c, to, true);
    let (slot, root, index, focused) = choose|slot: Rect, root: bool, index: int, focused: bool|
        c.resized(width, height).focused_window() == #[trigger] c.focused_window().moved(slot).refreshed(
            root,
            index,
            focused,
            true,
        );
    let p = c.focused_window();
    let titled = PaneView {
        header: header_text(root, index, slot.x, slot.y, slot.width, slot.height),
        header_color: Color::header(focused),
        ..p.moved(slot)
    };
    titled.rewound().lemma_rewrote_keeps(titled.lines.len());

    c.lemma_with_focused_window(p.printed(text));
    let d = c.printed(text);
    lemma_settled_focus(d, to, true);
    let (slot2, root2, index2, focused2) = choose|slot: Rect, root: bool, index: int, focused: bool|
        d.resized(width, height).focused_window() == #[trigger] d.focused_window().moved(slot).refreshed(
            root,
            index,
            focused,
            true,
        );
    let q = d.focused_window();
    let titled2 = PaneView {
        header: header_text(root2, index2, slot2.x, slot2.y, slot2.width, slot2.height),
        header_color: Color::header(focused2),
        ..q.moved(slot2)
    };
    titled2.rewound().lemma_rewrote_keeps(titled2.lines.len());
}

/// The path to the container that holds the pane in focus leads to that
/// container, and to what is put in its place.
proof fn lemma_holder_at(c: ContainerView, new: ContainerView)
    requires
        c.shaped(),
    ensures
        c.container_at(c.holder_path()) == Some(c.focused_container()),
        c.with_holder(new).container_at(c.holder_path()) == Some(new),
    decreases c,
{
    match c.children[c.focus] {
        NodeView::Window(_) => {},
        NodeView::Container(k) => {
            lemma_holder_at(k, new);
            assert(c.holder_path().drop_first() =~= k.holder_path());
        },
    }
}

/// Where the container that holds the pane in focus has another child
/// besides it, taking the pane out of the tree takes it out of that container
/// and changes nothing else.
proof fn lemma_pruned_in_holder(c: ContainerView)
    requires
        c.shaped(),
        c.focused_container().children.len() >= 2,
    ensures
        c.pruned() == Some(c.with_holder(c.focused_container().without_child(c.focused_container().focus))),
    decreases c,
{
    match c.children[c.focus] {
        NodeView::Window(_) => {},
        NodeView::Container(k) => {
            lemma_pruned_in_holder(k);
        },
    }
}

/// A container of a tree that was laid out and brought up to date is the
/// container that stood at the same place before, laid out in some rectangle
/// and brought up to date.
proof fn lemma_settled_container_at(c: ContainerView, to: Rect, in_focus_chain: bool, path: Seq<int>)
    requires
        c.container_at(path) is Some,
    ensures
        exists|slot: Rect, chain: bool|
            c.placed(to).refreshed(true, in_focus_chain).container_at(path) == Some(
                #[trigger] c.container_at(path)->0.placed(slot).refreshed(true, chain),
            ),
    decreases path.len(),
{
    let out = c.placed(to).refreshed(true, in_focus_chain);
    if path.len() == 0 {
        assert(out.container_at(path) == Some(c.container_at(path)->0.placed(to).refreshed(true, in_focus_chain)));
    } else {
        let i = path[0];
        let slot = c.framed(to).child_rect(i);
        let chain = in_focus_chain && c.focus == i;
        lemma_settled_child(c, to, in_focus_chain, i);
        match c.children[i] {
            NodeView::Window(_) => {},
            NodeView::Container(k) => {
                lemma_settled_container_at(k, slot, chain, path.drop_first());
                let (s2, c2) = choose|s2: Rect, c2: bool|
                    k.placed(slot).refreshed(true, chain).container_at(path.drop_first()) == Some(
                        #[trigger] k.container_at(path.drop_first())->0.placed(s2).refreshed(true, c2),
                    );
                assert(out.container_at(path) == Some(c.container_at(path)->0.placed(s2).refreshed(true, c2)));
            },
        }
    }
}

/// A delete gives the focus to the sibling before the deleted pane.
///
/// Take a well-formed tree in which the container that holds the pane in
/// focus has another child besides it. After a delete that container stands
/// where it stood, with one child less, and its focus index has gone back by
/// one unless it was zero. The pane in focus is then the pane to which the
/// focus leads from the sibling before the deleted pane, or from the sibling
/// after it where the deleted pane was the first: a pane that was in the tree
/// before, with the lines that it had. The focus path of the new tree leads
/// to it and to no other pane.
pub proof fn law_delete_moves_focus(c: ContainerView)
    requires
        c.wf(),
        c.focused_container().children.len() >= 2,
    ensures
        c.deleted().wf(),
        c.deleted().container_at(c.holder_path()) is Some,
        c.deleted().container_at(c.holder_path())->0.id == c.focused_container().id,
        c.deleted().container_at(c.holder_path())->0.children.len() == c.focused_container().children.len()
            - 1,
        c.deleted().container_at(c.holder_path())->0.focus == if c.focused_container().focus > 0 {
            c.focused_container().focus - 1
        } else {
            0
        },
        0 <= c.deleted().container_at(c.holder_path())->0.focus < c.deleted().container_at(
            c.holder_path(),
        )->0.children.len(),
        c.deleted().focused_window().id == c.focused_container().children[if c.focused_container().focus
            > 0 {
            c.focused_container().focus - 1
        } else {
            1
        }].focused_pane().id,
        c.deleted().focused_window().lines == c.focused_container().children[if c.focused_container().focus
            > 0 {
            c.focused_container().focus - 1
        } else {
            1
        }].focused_pane().lines,
        c.deleted().follows_focus(c.deleted().focus_path()),
        c.deleted().node_at(c.deleted().focus_path()) == Some(NodeView::Window(c.deleted().focused_window())),
{
    let holder = c.focused_container();
    let k = holder.focus;
    let less = holder.without_child(k);
    let kept = c.with_holder(less);
    let to = c.rect();
    c.lemma_focused_container();
    c.lemma_deleted();
    lemma_pruned_in_holder(c);
    assert(c.deleted() == kept.placed(to).refreshed(true, true));
    // The container that held the pane stands where it stood.
    lemma_holder_at(c, less);
    lemma_settled_container_at(kept, to, true, c.holder_path());
    let (slot, chain) = choose|slot: Rect, chain: bool|
        kept.placed(to).refreshed(true, true).container_at(c.holder_path()) == Some(
            #[trigger] kept.container_at(c.holder_path())->0.placed(slot).refreshed(true, chain),
        );
    assert(less.children.len() >= 1);
    lemma_settled_child(less, slot, chain, 0);
    // The pane in focus is the one to which the sibling leads.
    assert forall|i: int| 0 <= i < less.children.len() implies (#[trigger] less.children[i] matches NodeView::Container(
        x,
    ) ==> x.shaped() && !x.root) by {
        if i < k {
            assert(less.children[i] == holder.children[i]);
        } else {
            assert(less.children[i] == holder.children[i + 1]);
        }
    }
    c.lemma_with_holder(less);
    lemma_settled_focus(kept, to, true);
    let (s3, r3, i3, f3) = choose|slot: Rect, root: bool, index: int, focused: bool|
        kept.placed(to).refreshed(true, true).focused_window() == #[trigger] kept.focused_window().moved(
            slot,
        ).refreshed(root, index, focused, true);
    let p = kept.focused_window();
    let titled = PaneView {
        header: header_text(r3, i3, s3.x, s3.y, s3.width, s3.height),
        header_color: Color::header(f3),
        ..p.moved(s3)
    };
    titled.rewound().lemma_rewrote_keeps(titled.lines.len());
    law_one_pane_in_focus(c.deleted(), c.deleted().focus_path());
}

} // verus!
