//! A pane: one rectangle of the screen with its header, its buffer of lines
//! and the cursor at which the next line is written.

use vstd::prelude::*;
use vstd::utf8::encode_utf8;
use vstd::string::StringExecFns;
use crate::geometry::Rect;

verus! {

/// The attribute of a colour pair, as curses computes it.
///
/// Calls `ncurses::COLOR_PAIR`. Nothing is proved of this function. The
/// contract claims what the crate's source shows: the pair's number, moved up
/// by the eight bits that an attribute keeps for the character.
#[verifier::external_body]
fn color_pair(n: i16) -> (attr: u32)
    requires
        0 <= n,
    ensures
        attr == n * 256,
{
    ncurses::COLOR_PAIR(n)
}

/// The colour pairs of the screen.
#[derive(Copy, Clone, Debug, PartialEq, Eq, Structural)]
pub enum Color {
    Default,
    Selection,
    Status,
    StatusSelected,
}

impl Color {
    /// The number under which the terminal knows this pair.
    pub open spec fn pair_number(self) -> int {
        match self {
            Color::Default => 1,
            Color::Selection => 2,
            Color::Status => 3,
            Color::StatusSelected => 4,
        }
    }

    /// The number under which the terminal knows this pair.
    pub fn pair(self) -> (n: i16)
        ensures
            n == self.pair_number(),
    {
        match self {
            Color::Default => 1,
            Color::Selection => 2,
            Color::Status => 3,
            Color::StatusSelected => 4,
        }
    }

    /// The attribute by which the terminal paints with this pair.
    pub fn attribute(self) -> (attr: u32)
        ensures
            attr == self.pair_number() * 256,
    {
        color_pair(self.pair())
    }

    /// The colour of a pane's header: one for the pane that holds the focus,
    /// another for all the others.
    pub open spec fn header(focused: bool) -> Color {
        if focused {
            Color::StatusSelected
        } else {
            Color::Status
        }
    }
}

/// A pane of the screen.
///
/// `x` and `y` are its origin, `xmax` and `ymax` its width and height. The
/// cursor is a column and a row inside the pane. A pane with a border gives its
/// first column to the border line; the last row of every pane is its header.
#[derive(Debug, PartialEq, Eq)]
pub struct Window {
    pub id: u128,
    pub border: bool,
    pub x: i32,
    pub y: i32,
    pub xmax: i32,
    pub ymax: i32,
    pub cursor: (i32, i32),
    pub lines: Vec<String>,
    pub header: String,
    pub header_color: Color,
}

/// What a pane is, as plain mathematical values.
pub struct PaneView {
    pub id: u128,
    pub border: bool,
    pub x: int,
    pub y: int,
    pub width: int,
    pub height: int,
    pub cursor: (int, int),
    pub lines: Seq<Seq<char>>,
    pub header: Seq<char>,
    pub header_color: Color,
}

impl View for Window {
    type V = PaneView;

    open spec fn view(&self) -> PaneView {
        PaneView {
            id: self.id,
            border: self.border,
            x: self.x as int,
            y: self.y as int,
            width: self.xmax as int,
            height: self.ymax as int,
            cursor: (self.cursor.0 as int, self.cursor.1 as int),
            lines: Seq::new(self.lines@.len(), |i: int| self.lines@[i]@),
            header: self.header@,
            header_color: self.header_color,
        }
    }
}

/// The length of a text in bytes, as a `usize` holds it.
#[verifier::opaque]
pub open spec fn byte_len(text: Seq<char>) -> int {
    (encode_utf8(text).len() as usize) as int
}

/// The rows that a text of `len` bytes takes in a pane of `width` columns, of
/// which one is kept free: `len` divided by `width - 1`, rounded up.
#[verifier::opaque]
pub open spec fn line_rows(len: int, width: int) -> int {
    len / (width - 1) + if len % (width - 1) > 0 {
        1int
    } else {
        0int
    }
}

/// A row number cut off at the largest that the cursor can hold.
pub open spec fn clip_row(row: int) -> int {
    if row > i32::MAX {
        i32::MAX as int
    } else {
        row
    }
}

impl PaneView {
    /// The rectangle that the pane covers.
    pub open spec fn rect(self) -> Rect {
        Rect { x: self.x, y: self.y, width: self.width, height: self.height }
    }

    /// Whether the pane takes a write: its cursor has not reached its height,
    /// and it is wide enough to hold a character beside the free column.
    pub open spec fn can_write(self) -> bool {
        self.cursor.1 < self.height && 2 <= self.width
    }

    /// The pane after `text` was written at its cursor. The cursor goes down by
    /// the rows that the text takes. A pane that takes no write stays as it is.
    pub open spec fn wrote(self, text: Seq<char>) -> PaneView {
        if self.can_write() {
            PaneView {
                cursor: (self.cursor.0, clip_row(self.cursor.1 + line_rows(byte_len(text), self.width))),
                ..self
            }
        } else {
            self
        }
    }

    /// The pane after `text` was printed: written at the cursor and added to
    /// the buffer, whether or not the write was taken.
    pub open spec fn printed(self, text: Seq<char>) -> PaneView {
        PaneView { lines: self.lines.push(text), ..self.wrote(text) }
    }

    /// The pane after `text` was printed over its last line: the cursor goes
    /// to the start of its row and stays there, and `text` takes the place of
    /// the last line of the buffer.
    pub open spec fn overwritten(self, text: Seq<char>) -> PaneView {
        PaneView {
            cursor: (0, self.cursor.1),
            lines: if self.lines.len() > 0 {
                self.lines.drop_last().push(text)
            } else {
                seq![text]
            },
            ..self
        }
    }

    /// The pane with its cursor back at its first cell.
    pub open spec fn rewound(self) -> PaneView {
        PaneView { cursor: (0, 0), ..self }
    }

    /// The pane after the first `k` lines of its buffer were written again,
    /// one after the other, from where its cursor stands.
    pub open spec fn rewrote(self, k: nat) -> PaneView
        decreases k,
    {
        if k == 0 || k > self.lines.len() {
            self
        } else {
            self.rewrote((k - 1) as nat).wrote(self.lines[k - 1])
        }
    }

    /// The pane after its whole buffer was written again from the first cell:
    /// the cursor goes back there, and then every line is written in its
    /// turn.
    pub open spec fn reprinted(self) -> PaneView {
        self.rewound().rewrote(self.lines.len())
    }

    /// The pane moved to the rectangle `to`, with its cursor back at its first
    /// cell.
    pub open spec fn moved(self, to: Rect) -> PaneView {
        PaneView { x: to.x, y: to.y, width: to.width, height: to.height, cursor: (0, 0), ..self }
    }

    /// Where line `k` of the buffer stands when the buffer is written again
    /// from the first cell: the column and row of its first character, or
    /// `None` where the pane takes no write by then and the line is dropped.
    pub open spec fn line_position(self, k: int) -> Option<(int, int)> {
        if self.rewound().rewrote(k as nat).can_write() {
            Some(self.rewound().rewrote(k as nat).cursor)
        } else {
            None
        }
    }

    /// Writing a pane's buffer again moves its cursor and nothing else.
    pub proof fn lemma_rewrote_keeps(self, k: nat)
        ensures
            self.rewrote(k) == (PaneView { cursor: self.rewrote(k).cursor, ..self }),
        decreases k,
    {
        if k == 0 || k > self.lines.len() {
        } else {
            self.lemma_rewrote_keeps((k - 1) as nat);
        }
    }

    /// The column at which the header's text begins: beside the border where
    /// there is one.
    pub open spec fn header_margin(self) -> int {
        if self.border {
            2
        } else {
            1
        }
    }
}

/// Where the cursor stands after a text of `len` bytes was written at it in a
/// pane of the given width and height.
fn advance(cursor: (i32, i32), width: i32, height: i32, len: usize) -> (next: (i32, i32))
    ensures
        next.0 == cursor.0,
        cursor.1 < height && 2 <= width ==> next.1 == clip_row(
            cursor.1 + line_rows(len as int, width as int),
        ),
        !(cursor.1 < height && 2 <= width) ==> next.1 == cursor.1,
{
    proof {
        reveal(line_rows);
    }
    if cursor.1 >= height || width < 2 {
        return cursor;
    }
    let room: u64 = (width - 1) as u64;
    let bytes: u64 = len as u64;
    let whole: u64 = bytes / room;
    let rows: u128 = if bytes % room > 0 {
        whole as u128 + 1
    } else {
        whole as u128
    };
    let target: i128 = cursor.1 as i128 + rows as i128;
    let row: i32 = if target > i32::MAX as i128 {
        i32::MAX
    } else {
        target as i32
    };
    (cursor.0, row)
}

impl Window {
    /// A new pane with the given id and rectangle. Its buffer is empty, its
    /// cursor is at its first cell, and its header is highlighted.
    pub fn new_window(id: u128, x: i32, y: i32, dimensions: (i32, i32), border: bool) -> (w: Window)
        ensures
            w@ == (PaneView {
                id,
                border,
                x: x as int,
                y: y as int,
                width: dimensions.0 as int,
                height: dimensions.1 as int,
                cursor: (0, 0),
                lines: Seq::empty(),
                header: "New window"@,
                header_color: Color::StatusSelected,
            }),
    {
        let w = Window {
            id,
            border,
            x,
            y,
            xmax: dimensions.0,
            ymax: dimensions.1,
            cursor: (0, 0),
            lines: Vec::new(),
            header: String::from_str("New window"),
            header_color: Color::StatusSelected,
        };
        assert(w@.lines =~= Seq::empty());
        w
    }

    /// A new pane without a border that covers a screen of the given size.
    pub fn new(id: u128, width: i32, height: i32) -> (w: Window)
        ensures
            w@ == (PaneView {
                id,
                border: false,
                x: 0,
                y: 0,
                width: width as int,
                height: height as int,
                cursor: (0, 0),
                lines: Seq::empty(),
                header: "New window"@,
                header_color: Color::StatusSelected,
            }),
    {
        Window::new_window(id, 0, 0, (width, height), false)
    }

    /// Tells whether the pane takes a write at its cursor.
    pub fn can_write(&self) -> (b: bool)
        ensures
            b == self@.can_write(),
    {
        self.cursor.1 < self.ymax && self.xmax >= 2
    }

    /// The column at which the header's text begins.
    pub fn header_margin(&self) -> (m: i32)
        ensures
            m == self@.header_margin(),
    {
        if self.border {
            2
        } else {
            1
        }
    }

    /// Writes `s` at the cursor and moves the cursor down by the rows that it
    /// takes. Returns the column and row at which the text stands, or `None`
    /// where the pane took no write. The buffer is left as it is.
    pub fn print_internal(&mut self, s: &str) -> (at: Option<(i32, i32)>)
        ensures
            final(self)@ == old(self)@.wrote(s@),
            at == if old(self)@.can_write() {
                Some(old(self).cursor)
            } else {
                None
            },
    {
        proof {
            reveal(byte_len);
        }
        let before: (i32, i32) = self.cursor;
        let taken: bool = self.can_write();
        self.cursor = advance(self.cursor, self.xmax, self.ymax, s.len());
        assert(self@.lines =~= old(self)@.lines);
        if taken {
            Some(before)
        } else {
            None
        }
    }

    /// Prints `s`: writes it at the cursor and adds it to the buffer. Returns
    /// the column and row at which the text stands, or `None` where the pane
    /// is full or too narrow and the write was dropped.
    pub fn print(&mut self, s: &str) -> (at: Option<(i32, i32)>)
        ensures
            final(self)@ == old(self)@.printed(s@),
            at == if old(self)@.can_write() {
                Some(old(self).cursor)
            } else {
                None
            },
    {
        let at = self.print_internal(s);
        self.lines.push(String::from_str(s));
        assert(self@.lines =~= old(self)@.lines.push(s@));
        at
    }

    /// Prints `s` over the last line: the cursor goes to the start of its row
    /// and stays there, and `s` takes the place of the last line of the
    /// buffer. Returns the column and row at which the text stands.
    pub fn print_overwriting(&mut self, s: &str) -> (at: (i32, i32))
        ensures
            final(self)@ == old(self)@.overwritten(s@),
            at == (0i32, old(self).cursor.1),
    {
        self.cursor = (0, self.cursor.1);
        self.lines.pop();
        self.lines.push(String::from_str(s));
        assert(self@.lines =~= old(self)@.overwritten(s@).lines);
        (0, self.cursor.1)
    }

    /// Writes the whole buffer again from the first cell: the cursor goes back
    /// there, and then every line is written in its turn. A second call
    /// changes nothing.
    pub fn reprint_buffer(&mut self)
        ensures
            final(self)@ == old(self)@.reprinted(),
    {
        self.cursor = (0, 0);
        assert(self@.lines =~= old(self)@.lines);
        let n: usize = self.lines.len();
        let mut k: usize = 0;
        while k < n
            invariant
                k <= n,
                n == old(self).lines@.len(),
                self@ == old(self)@.rewound().rewrote(k as nat),
                self.lines == old(self).lines,
            decreases n - k,
        {
            let len: usize = self.lines[k].as_str().len();
            proof {
                reveal(byte_len);
            }
            assert(len == byte_len(old(self)@.lines[k as int]));
            self.cursor = advance(self.cursor, self.xmax, self.ymax, len);
            k = k + 1;
            assert(self@.lines =~= old(self)@.lines);
        }
    }

    /// Where each line of the buffer stands when the buffer is written again
    /// from the first cell: the column and row of its first character, or
    /// `None` for a line that is dropped.
    pub fn line_positions(&self) -> (at: Vec<Option<(i32, i32)>>)
        ensures
            at@.len() == self@.lines.len(),
            forall|k: int|
                0 <= k < at@.len() ==> match #[trigger] at@[k] {
                    Some(c) => self@.line_position(k) == Some((c.0 as int, c.1 as int)),
                    None => self@.line_position(k) is None,
                },
    {
        let n: usize = self.lines.len();
        let mut at: Vec<Option<(i32, i32)>> = Vec::new();
        let mut cursor: (i32, i32) = (0, 0);
        let mut k: usize = 0;
        while k < n
            invariant
                k <= n,
                n == self.lines@.len(),
                at@.len() == k,
                (cursor.0 as int, cursor.1 as int) == self@.rewound().rewrote(k as nat).cursor,
                forall|j: int|
                    0 <= j < k ==> match #[trigger] at@[j] {
                        Some(c) => self@.line_position(j) == Some((c.0 as int, c.1 as int)),
                        None => self@.line_position(j) is None,
                    },
            decreases n - k,
        {
            proof {
                self@.rewound().lemma_rewrote_keeps(k as nat);
                reveal(byte_len);
            }
            let taken: bool = cursor.1 < self.ymax && self.xmax >= 2;
            at.push(if taken {
                Some(cursor)
            } else {
                None
            });
            let len: usize = self.lines[k].as_str().len();
            assert(len == byte_len(self@.lines[k as int]));
            cursor = advance(cursor, self.xmax, self.ymax, len);
            k = k + 1;
        }
        at
    }

    /// Moves the pane to a rectangle and puts its cursor back at its first
    /// cell.
    pub fn move_to(&mut self, x: i32, y: i32, width: i32, height: i32)
        ensures
            final(self)@ == old(self)@.moved(
                Rect { x: x as int, y: y as int, width: width as int, height: height as int },
            ),
    {
        self.x = x;
        self.y = y;
        self.xmax = width;
        self.ymax = height;
        self.cursor = (0, 0);
        assert(self@.lines =~= old(self)@.lines);
    }
}

} // verus!
