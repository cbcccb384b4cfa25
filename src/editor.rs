use vstd::prelude::*;

use crate::file_tree::Folder;
use crate::instruction::{white, Instruction, Rgb};

verus! {

/// One character cell of the buffer.
#[derive(Debug, Clone, Copy, PartialEq, Eq, Structural)]
pub struct Span {
    pub text: char,
    pub bold: bool,
    pub foreground: Rgb,
}

/// A blank cell in the default colour.
pub open spec fn empty_span() -> Span {
    Span { text: ' ', bold: false, foreground: white() }
}

impl Span {
    pub fn new(c: char, foreground: Rgb, bold: bool) -> (r: Span)
        ensures
            r == (Span { text: c, bold, foreground }),
    {
        Span { text: c, bold, foreground }
    }

    pub fn empty() -> (r: Span)
        ensures
            r == empty_span(),
    {
        Span { text: ' ', bold: false, foreground: Rgb::white() }
    }
}

/// One row of the buffer.
#[derive(Debug, Clone, PartialEq, Eq)]
pub struct Line {
    pub spans: Vec<Span>,
}

impl Line {
    pub fn empty() -> (r: Line)
        ensures
            r.spans@ == Seq::<Span>::empty(),
    {
        Line { spans: Vec::new() }
    }
}

/// The rows of a buffer, as sequences of cells.
pub open spec fn buffer_view(lines: Seq<Line>) -> Seq<Seq<Span>> {
    lines.map_values(|l: Line| l.spans@)
}

/// `b` with empty rows added until it has at least `n`.
pub open spec fn pad_lines(b: Seq<Seq<Span>>, n: nat) -> Seq<Seq<Span>> {
    if b.len() >= n {
        b
    } else {
        b + Seq::new((n - b.len()) as nat, |i: int| Seq::<Span>::empty())
    }
}

/// `l` with blank cells added until it has at least `n`.
pub open spec fn pad_spans(l: Seq<Span>, n: nat) -> Seq<Span> {
    if l.len() >= n {
        l
    } else {
        l + Seq::new((n - l.len()) as nat, |i: int| empty_span())
    }
}

/// The buffer grown just enough that cell `(x, y)` can be written:
/// row `y` exists and holds at least `x` cells.
pub open spec fn extended(b: Seq<Seq<Span>>, x: nat, y: nat) -> Seq<Seq<Span>> {
    let p = pad_lines(b, y + 1);
    p.update(y as int, pad_spans(p[y as int], x))
}

/// The scroll offset and the cursor's row on screen, for a cursor on row
/// `y`, the scroll offset `scroll` before, and a viewport of `height` rows:
/// scroll up to a cursor above the viewport, down to one below it.
pub open spec fn viewport_for(scroll: nat, y: nat, height: nat) -> (nat, nat) {
    if y < scroll {
        (y, 0)
    } else if y - scroll >= height {
        ((y + 1 - height) as nat, (height - 1) as nat)
    } else {
        (scroll, (y - scroll) as nat)
    }
}

/// The state of an editor session.
pub struct EditorModel {
    pub lines: Seq<Seq<Span>>,
    pub cursor_x: nat,
    pub cursor_y: nat,
    pub scroll_y: nat,
    pub screen_x: nat,
    pub screen_y: nat,
    pub shown_x: nat,
    pub shown_y: nat,
    pub foreground: Rgb,
    pub waiting: bool,
    pub show_cursor: bool,
}

/// After the cursor moved: the buffer grown to hold it, the viewport
/// derived again, and the cursor published for drawing.
pub open spec fn settle(m: EditorModel, height: nat) -> EditorModel {
    let v = viewport_for(m.scroll_y, m.cursor_y, height);
    EditorModel {
        lines: extended(m.lines, m.cursor_x, m.cursor_y),
        scroll_y: v.0,
        screen_x: m.cursor_x,
        screen_y: v.1,
        shown_x: m.cursor_x,
        shown_y: m.cursor_y,
        ..m
    }
}

/// A character inserted at the cursor, in the current colour, the cursor
/// one column further.
pub open spec fn typed(m: EditorModel, c: char, bold: bool) -> EditorModel {
    let b = extended(m.lines, m.cursor_x, m.cursor_y);
    let row = b[m.cursor_y as int];
    EditorModel {
        lines: b.update(
            m.cursor_y as int,
            row.insert(m.cursor_x as int, Span { text: c, bold, foreground: m.foreground }),
        ),
        cursor_x: m.cursor_x + 1,
        ..m
    }
}

/// What applying one instruction does to the session.
pub open spec fn step(m: EditorModel, inst: Instruction, height: nat) -> EditorModel {
    match inst {
        Instruction::MoveCursor(x, y) => settle(
            EditorModel { cursor_x: x as nat, cursor_y: y as nat, ..m },
            height,
        ),
        Instruction::Type(c, bold) => settle(typed(m, c, bold), height),
        Instruction::SetForeground(c) => EditorModel { foreground: c, ..m },
        Instruction::Newline { x } => settle(
            EditorModel { cursor_x: x as nat, cursor_y: m.cursor_y + 1, ..m },
            height,
        ),
        Instruction::SetX(x) => settle(EditorModel { cursor_x: x as nat, ..m }, height),
        Instruction::Wait => EditorModel { waiting: true, ..m },
        Instruction::HideCursor => EditorModel { show_cursor: false, ..m },
        _ => m,
    }
}

/// Instructions that move the cursor.
pub open spec fn moves_cursor(inst: Instruction) -> bool {
    inst is MoveCursor || inst is Type || inst is Newline || inst is SetX
}

/// Instructions that the editor applies: pauses belong to playback, a new
/// focus to [`Editor::update_focus`], and columns are never negative.
pub open spec fn applicable(inst: Instruction) -> bool {
    match inst {
        Instruction::Newline { x } => x >= 0,
        Instruction::SetX(x) => x >= 0,
        Instruction::Pause(_) => false,
        Instruction::UpdateState(_, _) => false,
        _ => true,
    }
}

/// Whether the editor applies `inst` (see [`applicable`]).
pub fn is_applicable(inst: &Instruction) -> (r: bool)
    ensures
        r == applicable(*inst),
{
    match inst {
        Instruction::Newline { x } => *x >= 0,
        Instruction::SetX(x) => *x >= 0,
        Instruction::Pause(_) => false,
        Instruction::UpdateState(_, _) => false,
        _ => true,
    }
}

/// What the rendering surface shows of an editor session.
pub struct Doc {
    pub doc_height: usize,
    pub screen_cursor_x: usize,
    pub screen_cursor_y: usize,
    pub buf_cursor_x: usize,
    pub buf_cursor_y: usize,
    pub scroll_y: usize,
    pub lines: Vec<Line>,
    pub title: String,
    pub waiting: bool,
    pub show_cursor: bool,
    pub tree: Folder,
    pub folder_list: Vec<String>,
    pub file_name: String,
}

/// The file name shown for a breadcrumb list: its last entry, if any.
pub open spec fn breadcrumb_name(folder_list: Seq<String>) -> Seq<char> {
    if folder_list.len() > 0 { folder_list.last()@ } else { Seq::empty() }
}

impl Doc {
    /// A session on one empty row, with the cursor at the origin. The last
    /// entry of `folder_list` becomes the file name.
    pub fn new(title: String, tree: Folder, folder_list: Vec<String>) -> (r: Doc)
        ensures
            buffer_view(r.lines@) == seq![Seq::<Span>::empty()],
            r.screen_cursor_x == 0 && r.screen_cursor_y == 0,
            r.buf_cursor_x == 0 && r.buf_cursor_y == 0,
            r.scroll_y == 0,
            r.doc_height == 1,
            r.title == title,
            r.tree == tree,
            r.file_name@ == breadcrumb_name(folder_list@),
            r.folder_list@ == (if folder_list@.len() > 0 {
                folder_list@.drop_last()
            } else {
                folder_list@
            }),
            !r.waiting,
            r.show_cursor,
    {
        let mut folder_list = folder_list;
        let file_name = match folder_list.pop() {
            Some(v) => v,
            None => String::new(),
        };
        let mut lines: Vec<Line> = Vec::new();
        lines.push(Line::empty());
        assert(buffer_view(lines@) =~= seq![Seq::<Span>::empty()]);
        Doc {
            doc_height: 1,
            screen_cursor_x: 0,
            screen_cursor_y: 0,
            buf_cursor_x: 0,
            buf_cursor_y: 0,
            scroll_y: 0,
            lines,
            title,
            waiting: false,
            show_cursor: true,
            tree,
            folder_list,
            file_name,
        }
    }

    /// Focuses another file: the buffer emptied, and the title, tree and
    /// breadcrumbs replaced (the last breadcrumb becomes the file name).
    pub fn update_state(&mut self, new_title: String, tree: Folder, folder_list: Vec<String>)
        ensures
            final(self).lines@.len() == 0,
            final(self).title == new_title,
            final(self).tree == tree,
            final(self).file_name@ == breadcrumb_name(folder_list@),
            final(self).folder_list@ == (if folder_list@.len() > 0 {
                folder_list@.drop_last()
            } else {
                folder_list@
            }),
            final(self).screen_cursor_x == old(self).screen_cursor_x,
            final(self).screen_cursor_y == old(self).screen_cursor_y,
            final(self).buf_cursor_x == old(self).buf_cursor_x,
            final(self).buf_cursor_y == old(self).buf_cursor_y,
            final(self).scroll_y == old(self).scroll_y,
            final(self).doc_height == old(self).doc_height,
            final(self).waiting == old(self).waiting,
            final(self).show_cursor == old(self).show_cursor,
    {
        self.lines = Vec::new();
        let mut folder_list = folder_list;
        self.file_name = match folder_list.pop() {
            Some(v) => v,
            None => String::new(),
        };
        self.title = new_title;
        self.tree = tree;
        self.folder_list = folder_list;
    }
}

/// The scroll offset and screen row for a cursor on row `y` (see
/// [`viewport_for`]).
pub fn viewport(scroll: usize, y: usize, height: u16) -> (r: (usize, usize))
    requires
        height > 0,
    ensures
        (r.0 as nat, r.1 as nat) == viewport_for(scroll as nat, y as nat, height as nat),
        r.1 < height,
{
    let h = height as usize;
    if y < scroll {
        (y, 0)
    } else if y - scroll >= h {
        (y - (h - 1), h - 1)
    } else {
        (scroll, y - scroll)
    }
}

/// Grows the buffer so that cell `(x, y)` can be written.
fn extend_to(lines: &mut Vec<Line>, x: usize, y: usize)
    ensures
        buffer_view(final(lines)@) == extended(buffer_view(old(lines)@), x as nat, y as nat),
        y < final(lines)@.len() <= usize::MAX,
{
    let ghost b0 = buffer_view(lines@);
    assert(buffer_view(lines@) =~= b0 + Seq::new(0, |i: int| Seq::<Span>::empty()));
    while lines.len() <= y
        invariant
            b0.len() <= lines@.len(),
            lines@.len() <= b0.len() || lines@.len() <= y + 1,
            buffer_view(lines@) =~= b0 + Seq::new(
                (lines@.len() - b0.len()) as nat,
                |i: int| Seq::<Span>::empty(),
            ),
        decreases y + 1 - lines@.len(),
    {
        let ghost before = lines@;
        lines.push(Line::empty());
        assert(buffer_view(lines@) =~= buffer_view(before).push(Seq::<Span>::empty()));
    }
    let ghost p = buffer_view(lines@);
    assert(p =~= pad_lines(b0, (y + 1) as nat));
    let ghost row0 = p[y as int];
    let mut row = Line::empty();
    std::mem::swap(&mut row, &mut lines[y]);
    assert(row.spans@ == row0);
    assert(row.spans@ =~= row0 + Seq::new(0, |i: int| empty_span()));
    while row.spans.len() < x
        invariant
            row0.len() <= row.spans@.len(),
            row.spans@.len() <= row0.len() || row.spans@.len() <= x,
            row.spans@ =~= row0 + Seq::new(
                (row.spans@.len() - row0.len()) as nat,
                |i: int| empty_span(),
            ),
        decreases x - row.spans@.len(),
    {
        row.spans.push(Span::empty());
    }
    assert(row.spans@ =~= pad_spans(row0, x as nat));
    lines.set(y, row);
    assert(buffer_view(lines@) =~= p.update(y as int, pad_spans(row0, x as nat)));
}

/// The editor side of a session: the cursor and the current colour.
pub struct Editor {
    pub cursor_x: usize,
    pub cursor_y: usize,
    pub foreground: Rgb,
    /// The acknowledgment channel that key presses go to.
    pub ack: usize,
}

impl Editor {
    pub open spec fn model(&self, doc: &Doc) -> EditorModel {
        EditorModel {
            lines: buffer_view(doc.lines@),
            cursor_x: self.cursor_x as nat,
            cursor_y: self.cursor_y as nat,
            scroll_y: doc.scroll_y as nat,
            screen_x: doc.screen_cursor_x as nat,
            screen_y: doc.screen_cursor_y as nat,
            shown_x: doc.buf_cursor_x as nat,
            shown_y: doc.buf_cursor_y as nat,
            foreground: self.foreground,
            waiting: doc.waiting,
            show_cursor: doc.show_cursor,
        }
    }

    /// The cursor can always move one row down.
    pub open spec fn wf(&self) -> bool {
        self.cursor_y < usize::MAX
    }

    /// An editor at the origin, in the default colour, acknowledging on
    /// channel `ack`.
    pub fn new(ack: usize) -> (r: Editor)
        ensures
            r.cursor_x == 0 && r.cursor_y == 0,
            r.foreground == white(),
            r.ack == ack,
            r.wf(),
    {
        Editor { cursor_x: 0, cursor_y: 0, foreground: Rgb::white(), ack }
    }

    /// Grows the buffer to the cursor and derives the viewport again.
    fn update_cursor(&self, doc: &mut Doc, height: u16)
        requires
            height > 0,
        ensures
            self.model(final(doc)) == settle(self.model(old(doc)), height as nat),
            self.cursor_y < final(doc).lines@.len() <= usize::MAX,
            same_frame(old(doc), final(doc)),
    {
        extend_to(&mut doc.lines, self.cursor_x, self.cursor_y);
        let (scroll, screen_y) = viewport(doc.scroll_y, self.cursor_y, height);
        doc.scroll_y = scroll;
        doc.screen_cursor_x = self.cursor_x;
        doc.screen_cursor_y = screen_y;
        doc.buf_cursor_x = self.cursor_x;
        doc.buf_cursor_y = self.cursor_y;
    }

    /// Applies one instruction to the session, on a viewport of `height`
    /// rows.
    pub fn apply_inst(&mut self, inst: Instruction, doc: &mut Doc, height: u16)
        requires
            applicable(inst),
            height > 0,
            old(self).wf(),
        ensures
            final(self).model(final(doc)) == step(old(self).model(old(doc)), inst, height as nat),
            final(self).wf(),
            final(self).ack == old(self).ack,
            same_frame(old(doc), final(doc)),
            moves_cursor(inst) ==> final(doc).screen_cursor_y < height,
            match inst {
                Instruction::MoveCursor(x, y) => final(doc).lines@.len() > y
                    && final(doc).lines@[y as int].spans@.len() >= x,
                _ => true,
            },
    {
        let ghost m = self.model(doc);
        proof {
            if moves_cursor(inst) {
                lemma_cursor_on_screen(m, inst, height as nat);
            }
            if let Instruction::MoveCursor(x, y) = inst {
                lemma_move_cursor_extends(m, x, y, height as nat);
            }
        }
        match inst {
            Instruction::MoveCursor(x, y) => {
                self.cursor_x = x as usize;
                self.cursor_y = y as usize;
                self.update_cursor(doc, height);
            },
            Instruction::Type(c, bold) => {
                let x = self.cursor_x;
                let y = self.cursor_y;
                extend_to(&mut doc.lines, x, y);
                let ghost b = buffer_view(doc.lines@);
                let mut row = Line::empty();
                std::mem::swap(&mut row, &mut doc.lines[y]);
                assert(row.spans@ == b[y as int]);
                row.spans.insert(x, Span::new(c, self.foreground, bold));
                // The row now holds more than `x` cells, so `x + 1` fits.
                let cells = row.spans.len();
                assert(x < cells);
                let ghost new_row = row.spans@;
                doc.lines.set(y, row);
                assert(buffer_view(doc.lines@) =~= b.update(y as int, new_row));
                self.cursor_x = x + 1;
                assert(self.model(doc) == typed(m, c, bold));
                self.update_cursor(doc, height);
            },
            Instruction::SetForeground(c) => {
                self.foreground = c;
            },
            Instruction::Newline { x } => {
                self.cursor_x = x as usize;
                self.cursor_y = self.cursor_y + 1;
                self.update_cursor(doc, height);
            },
            Instruction::SetX(x) => {
                self.cursor_x = x as usize;
                self.update_cursor(doc, height);
            },
            Instruction::Wait => {
                doc.waiting = true;
            },
            Instruction::HideCursor => {
                doc.show_cursor = false;
            },
            _ => {},
        }
        assert(self.cursor_y < doc.lines@.len() || self.cursor_y == old(self).cursor_y);
    }

    /// Focuses another file: key presses go to channel `ack` from now on,
    /// and the buffer is emptied (see [`Doc::update_state`]).
    pub fn update_focus(
        &mut self,
        doc: &mut Doc,
        path: String,
        ack: usize,
        tree: Folder,
        folder_list: Vec<String>,
    )
        requires
            old(self).wf(),
        ensures
            final(self).ack == ack,
            final(self).cursor_x == old(self).cursor_x,
            final(self).cursor_y == old(self).cursor_y,
            final(self).foreground == old(self).foreground,
            final(self).wf(),
            final(doc).lines@.len() == 0,
            final(doc).title == path,
            final(doc).tree == tree,
            final(doc).file_name@ == breadcrumb_name(folder_list@),
            final(doc).folder_list@ == (if folder_list@.len() > 0 {
                folder_list@.drop_last()
            } else {
                folder_list@
            }),
            final(doc).waiting == old(doc).waiting,
            final(doc).show_cursor == old(doc).show_cursor,
    {
        self.ack = ack;
        doc.update_state(path, tree, folder_list);
    }

    /// A key press: the session stops waiting; the caller sends one
    /// acknowledgment on channel `self.ack`.
    pub fn on_key(&self, doc: &mut Doc)
        ensures
            !final(doc).waiting,
            self.model(final(doc)) == (EditorModel { waiting: false, ..self.model(old(doc)) }),
            same_frame(old(doc), final(doc)),
    {
        doc.waiting = false;
    }
}

/// The parts of a session that only focusing another file changes.
pub open spec fn same_frame(a: &Doc, b: &Doc) -> bool {
    &&& a.title == b.title
    &&& a.tree == b.tree
    &&& a.folder_list == b.folder_list
    &&& a.file_name == b.file_name
    &&& a.doc_height == b.doc_height
}

/// Moving the cursor never needs the buffer to be large enough: afterwards
/// row `y` exists and holds at least `x` cells, and what was there before
/// stays.
pub proof fn lemma_move_cursor_extends(m: EditorModel, x: u16, y: u16, height: nat)
    ensures
        step(m, Instruction::MoveCursor(x, y), height).lines.len() > y,
        step(m, Instruction::MoveCursor(x, y), height).lines[y as int].len() >= x,
        forall|r: int|
            0 <= r < m.lines.len() && r != y ==> #[trigger] step(
                m,
                Instruction::MoveCursor(x, y),
                height,
            ).lines[r] == m.lines[r],
        forall|c: int|
            0 <= y < m.lines.len() && 0 <= c < m.lines[y as int].len() ==> #[trigger] step(
                m,
                Instruction::MoveCursor(x, y),
                height,
            ).lines[y as int][c] == m.lines[y as int][c],
{
}

/// After any instruction that moves the cursor, the cursor's screen row
/// lies inside the viewport.
pub proof fn lemma_cursor_on_screen(m: EditorModel, inst: Instruction, height: nat)
    requires
        moves_cursor(inst),
        height > 0,
    ensures
        step(m, inst, height).screen_y < height,
{
}

} // verus!
