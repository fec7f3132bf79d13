use vstd::prelude::*;
use vstd::string::*;

use crate::document::{
    clamp_end, clamp_start, deleted, inserted, lines_fit, push_char, row_len, split_lines,
    valid_position, Document,
};

verus! {

/// A place in the buffer: column `x` of row `y`.
#[derive(Debug, Default, Clone, Copy, PartialEq, Eq, Structural)]
pub struct Position {
    pub x: usize,
    pub y: usize,
}

/// The width and height of an area of the screen, in cells.
#[derive(Debug, Clone, Copy, PartialEq, Eq, Structural)]
pub struct Size {
    pub width: u16,
    pub height: u16,
}

/// A key press, as the editor reads it.
#[derive(Debug, Clone, Copy, PartialEq, Eq, Structural)]
pub enum Key {
    Up,
    Down,
    Left,
    Right,
    PageUp,
    PageDown,
    Home,
    End,
    Char(char),
    Ctrl(char),
    Backspace,
    Delete,
    Other,
}

/// What the caller has to do after a key press.
#[derive(Debug, Clone, Copy, PartialEq, Eq, Structural)]
pub enum Action {
    Continue,
    Save,
    Quit,
}

/// The column and row that a key moves the cursor to, before the column is
/// clamped to the row.
pub open spec fn step(lines: Seq<Seq<char>>, p: Position, key: Key, height: int) -> (int, int) {
    let (x, y) = (p.x as int, p.y as int);
    let n = lines.len() as int;
    match key {
        Key::Up => (x, if y > 0 { y - 1 } else { 0 }),
        Key::Down => (x, if y + 1 < n { y + 1 } else { n }),
        Key::Left => if x > 0 {
            (x - 1, y)
        } else if y > 0 {
            (row_len(lines, y - 1), y - 1)
        } else {
            (x, y)
        },
        Key::Right => if x < row_len(lines, y) {
            (x + 1, y)
        } else if y < n {
            (0, y + 1)
        } else {
            (x, y)
        },
        Key::PageUp => (x, if y > height { y - height } else { 0 }),
        Key::PageDown => (x, if y + height < n { y + height } else { n }),
        Key::Home => (0, y),
        Key::End => (row_len(lines, y), y),
        _ => (x, y),
    }
}

/// Where a key moves the cursor: the step, with the column clamped to the
/// length of the row it lands on.
pub open spec fn moved(lines: Seq<Seq<char>>, p: Position, key: Key, height: int) -> Position {
    let (x, y) = step(lines, p, key, height);
    let len = row_len(lines, y);
    Position { x: (if x > len { len } else { x }) as usize, y: y as usize }
}

/// The least scroll along one axis that shows `pos` in a window of `extent`
/// cells starting at `off`.
pub open spec fn scroll_axis(pos: int, off: int, extent: int) -> int {
    if pos < off {
        pos
    } else if pos >= off + extent {
        if pos - extent + 1 > usize::MAX {
            usize::MAX as int
        } else {
            pos - extent + 1
        }
    } else {
        off
    }
}

/// The offset after scrolling the least that shows `cursor` in `viewport`.
pub open spec fn scrolled(offset: Position, cursor: Position, viewport: Size) -> Position {
    Position {
        x: scroll_axis(cursor.x as int, offset.x as int, viewport.width as int) as usize,
        y: scroll_axis(cursor.y as int, offset.y as int, viewport.height as int) as usize,
    }
}

/// What a key does to the rows, the cursor and the modified flag, before the
/// viewport follows the cursor.
pub open spec fn edited(
    lines: Seq<Seq<char>>,
    p: Position,
    modified: bool,
    key: Key,
    height: int,
) -> (Seq<Seq<char>>, Position, bool) {
    match key {
        Key::Char(c) => if c == '\n' {
            let l = split_lines(lines, p.x as int, p.y as int);
            (l, moved(l, moved(l, p, Key::Down, height), Key::Home, height), true)
        } else {
            let l = inserted(lines, p.x as int, p.y as int, c);
            (l, moved(l, p, Key::Right, height), true)
        },
        Key::Backspace => if p.x == 0 && p.y == 0 {
            (lines, p, modified)
        } else {
            let q = moved(lines, p, Key::Left, height);
            (deleted(lines, q.x as int, q.y as int), q, modified || q.y < lines.len())
        },
        Key::Delete => (deleted(lines, p.x as int, p.y as int), p, modified || p.y < lines.len()),
        Key::Up | Key::Down | Key::Left | Key::Right | Key::PageUp | Key::PageDown | Key::Home
        | Key::End => (lines, moved(lines, p, key, height), modified),
        _ => (lines, p, modified),
    }
}

/// The action that a key asks of the caller.
pub open spec fn action_of(key: Key) -> Action {
    if key == Key::Ctrl('s') {
        Action::Save
    } else if key == Key::Ctrl('q') {
        Action::Quit
    } else {
        Action::Continue
    }
}

/// What one line of the screen shows.
#[derive(Debug, PartialEq, Eq)]
pub enum ScreenLine {
    /// The visible part of a row.
    Text(String),
    /// The greeting shown on an empty document.
    Welcome,
    /// A line past the end of the document.
    Filler,
}

/// The part of line `l` that a viewport `width` cells wide, scrolled to
/// column `off`, shows.
pub open spec fn visible_slice(l: Seq<char>, off: int, width: int) -> Seq<char> {
    l.subrange(clamp_start(off, off + width, l.len() as int), clamp_end(off + width, l.len() as int))
}

/// Whether `line` is what screen line `i` shows of `lines`, with the viewport
/// of size `viewport` scrolled to `offset`.
pub open spec fn shows(
    line: ScreenLine,
    lines: Seq<Seq<char>>,
    offset: Position,
    viewport: Size,
    i: int,
) -> bool {
    let y = offset.y + i;
    match line {
        ScreenLine::Text(s) => y < lines.len() && s@ == visible_slice(
            lines[y],
            offset.x as int,
            viewport.width as int,
        ),
        ScreenLine::Welcome => y >= lines.len() && lines.len() == 0 && i == viewport.height / 2,
        ScreenLine::Filler => y >= lines.len() && !(lines.len() == 0 && i == viewport.height / 2),
    }
}

/// Whether `c` is a control character: general category Cc.
pub open spec fn is_control(c: char) -> bool {
    c <= '\u{1f}' || ('\u{7f}' <= c && c <= '\u{9f}')
}

/// Takes one key of an answer being typed: a newline ends the answer, a
/// character that is no control character is added to it, and any other key
/// is ignored. Returns whether the answer is complete.
pub fn prompt_input(answer: &mut String, key: Key) -> (done: bool)
    ensures
        done == (key == Key::Char('\n')),
        final(answer)@ == (match key {
            Key::Char(c) => if c != '\n' && !is_control(c) {
                old(answer)@.push(c)
            } else {
                old(answer)@
            },
            _ => old(answer)@,
        }),
{
    match key {
        Key::Char(c) => {
            if c == '\n' {
                true
            } else {
                if !(c <= '\u{1f}' || ('\u{7f}' <= c && c <= '\u{9f}')) {
                    push_char(answer, c);
                }
                false
            }
        },
        _ => false,
    }
}

/// Whether an answer to a yes-or-no question says yes: it starts with `y`.
pub fn answer_is_yes(answer: &str) -> (r: bool)
    ensures
        r == (answer@.len() > 0 && answer@[0] == 'y'),
{
    answer.unicode_len() > 0 && answer.get_char(0) == 'y'
}

/// At the start of the row past the last one, the end of the buffer, a
/// move to the right leaves the cursor where it is.
pub proof fn lemma_right_at_end_stays(lines: Seq<Seq<char>>, height: int)
    requires
        lines.len() <= usize::MAX,
    ensures
        moved(lines, Position { x: 0, y: lines.len() as usize }, Key::Right, height)
            == (Position { x: 0, y: lines.len() as usize }),
{
}

proof fn lemma_moved_valid(lines: Seq<Seq<char>>, p: Position, key: Key, height: int)
    requires
        valid_position(lines, p),
        lines_fit(lines),
        height >= 0,
    ensures
        valid_position(lines, moved(lines, p, key, height)),
{
}

/// The editing state: a document, the cursor in it, and the scroll offset of
/// the viewport.
pub struct Editor {
    should_quit: bool,
    cursor_position: Position,
    offset: Position,
    document: Document,
}

impl Editor {
    /// The document being edited.
    pub closed spec fn doc(&self) -> Document {
        self.document
    }

    /// The cursor, in buffer coordinates.
    pub closed spec fn cursor(&self) -> Position {
        self.cursor_position
    }

    /// The buffer coordinates shown at the top left of the viewport.
    pub closed spec fn view_offset(&self) -> Position {
        self.offset
    }

    /// Whether the user asked to quit.
    pub closed spec fn quitting(&self) -> bool {
        self.should_quit
    }

    /// The cursor lies in the document.
    pub open spec fn wf(&self) -> bool {
        valid_position(self.doc().lines(), self.cursor())
    }

    /// An editor on `document`, with the cursor and the viewport at the top left.
    pub fn new(document: Document) -> (r: Editor)
        ensures
            r.wf(),
            r.doc() == document,
            r.cursor() == (Position { x: 0, y: 0 }),
            r.view_offset() == (Position { x: 0, y: 0 }),
            !r.quitting(),
    {
        Editor {
            should_quit: false,
            cursor_position: Position { x: 0, y: 0 },
            offset: Position { x: 0, y: 0 },
            document,
        }
    }

    /// The document being edited.
    pub fn document(&self) -> (r: &Document)
        ensures
            *r == self.doc(),
    {
        &self.document
    }

    /// The cursor, in buffer coordinates.
    pub fn cursor_position(&self) -> (r: Position)
        ensures
            r == self.cursor(),
    {
        self.cursor_position
    }

    /// The buffer coordinates shown at the top left of the viewport.
    pub fn offset(&self) -> (r: Position)
        ensures
            r == self.view_offset(),
    {
        self.offset
    }

    /// Whether the user asked to quit.
    pub fn should_quit(&self) -> (r: bool)
        ensures
            r == self.quitting(),
    {
        self.should_quit
    }

    /// Records that the document was written out.
    pub fn mark_saved(&mut self)
        requires
            old(self).wf(),
        ensures
            final(self).wf(),
            final(self).doc().lines() == old(self).doc().lines(),
            final(self).doc().name() == old(self).doc().name(),
            !final(self).doc().modified(),
            final(self).cursor() == old(self).cursor(),
            final(self).view_offset() == old(self).view_offset(),
            final(self).quitting() == old(self).quitting(),
    {
        self.document.mark_saved();
    }

    /// The part of a terminal that shows the document: all of it but the
    /// status line at the bottom.
    pub fn document_viewport_size(terminal: &Size) -> (r: Size)
        ensures
            r.width == terminal.width,
            r.height == if terminal.height > 0 { terminal.height - 1 } else { 0 },
    {
        Size {
            width: terminal.width,
            height: if terminal.height > 0 { terminal.height - 1 } else { 0 },
        }
    }

    /// Moves the cursor as `key` directs, against the current rows.
    pub fn move_cursor(&mut self, key: Key, viewport: &Size)
        requires
            old(self).wf(),
        ensures
            final(self).wf(),
            final(self).cursor() == moved(
                old(self).doc().lines(),
                old(self).cursor(),
                key,
                viewport.height as int,
            ),
            final(self).doc() == old(self).doc(),
            final(self).view_offset() == old(self).view_offset(),
            final(self).quitting() == old(self).quitting(),
    {
        proof {
            self.document.lemma_lines_fit();
            lemma_moved_valid(self.document.lines(), self.cursor_position, key, viewport.height as int);
        }
        let mut x = self.cursor_position.x;
        let mut y = self.cursor_position.y;
        let height = viewport.height as usize;
        let n = self.document.len();
        match key {
            Key::Up => {
                y = if y > 0 { y - 1 } else { 0 };
            },
            Key::Down => {
                y = if y < n { y + 1 } else { n };
            },
            Key::Left => {
                if x > 0 {
                    x = x - 1;
                } else if y > 0 {
                    y = y - 1;
                    x = self.row_width(y);
                }
            },
            Key::Right => {
                if x < self.row_width(y) {
                    x = x + 1;
                } else if y < n {
                    y = y + 1;
                    x = 0;
                }
            },
            Key::PageUp => {
                y = if y > height { y - height } else { 0 };
            },
            Key::PageDown => {
                y = if n - y > height { y + height } else { n };
            },
            Key::Home => {
                x = 0;
            },
            Key::End => {
                x = self.row_width(y);
            },
            _ => {},
        }
        let width = self.row_width(y);
        if x > width {
            x = width;
        }
        self.cursor_position = Position { x, y };
    }

    /// The length of row `y`, or 0 past the last row.
    fn row_width(&self, y: usize) -> (r: usize)
        ensures
            r == row_len(self.doc().lines(), y as int),
    {
        match self.document.row(y) {
            Some(row) => row.len(),
            None => 0,
        }
    }

    /// Handles one key press: edits the document and moves the cursor as
    /// the key directs, then scrolls the viewport to the cursor. Saving and
    /// quitting are left to the caller, as the returned action says.
    pub fn process_keypress(&mut self, key: Key, viewport: &Size) -> (r: Action)
        requires
            old(self).wf(),
        ensures
            final(self).wf(),
            final(self).doc().lines() == edited(
                old(self).doc().lines(),
                old(self).cursor(),
                old(self).doc().modified(),
                key,
                viewport.height as int,
            ).0,
            final(self).cursor() == edited(
                old(self).doc().lines(),
                old(self).cursor(),
                old(self).doc().modified(),
                key,
                viewport.height as int,
            ).1,
            final(self).doc().modified() == edited(
                old(self).doc().lines(),
                old(self).cursor(),
                old(self).doc().modified(),
                key,
                viewport.height as int,
            ).2,
            final(self).doc().name() == old(self).doc().name(),
            final(self).view_offset() == scrolled(old(self).view_offset(), final(self).cursor(), *viewport),
            final(self).quitting() == (old(self).quitting() || key == Key::Ctrl('q')),
            r == action_of(key),
    {
        let mut action = Action::Continue;
        match key {
            Key::Ctrl(c) => {
                if c == 'q' {
                    self.should_quit = true;
                    action = Action::Quit;
                } else if c == 's' {
                    action = Action::Save;
                }
            },
            Key::Up | Key::Down | Key::Left | Key::Right | Key::PageUp | Key::PageDown | Key::Home
            | Key::End => {
                self.move_cursor(key, viewport);
            },
            Key::Char(c) => {
                if c == '\n' {
                    self.document.insert_newline(&self.cursor_position);
                    self.move_cursor(Key::Down, viewport);
                    self.move_cursor(Key::Home, viewport);
                } else {
                    self.document.insert(&self.cursor_position, c);
                    self.move_cursor(Key::Right, viewport);
                }
            },
            Key::Backspace => {
                if !(self.cursor_position.x == 0 && self.cursor_position.y == 0) {
                    self.move_cursor(Key::Left, viewport);
                    self.document.delete(&self.cursor_position);
                }
            },
            Key::Delete => {
                self.document.delete(&self.cursor_position);
            },
            Key::Other => {},
        }
        self.scroll(viewport);
        action
    }

    /// What each line of the viewport shows: the visible part of a row, the
    /// greeting in the middle of an empty document, or filler past the end.
    pub fn draw_rows(&self, viewport: &Size) -> (r: Vec<ScreenLine>)
        ensures
            r@.len() == viewport.height,
            forall|i: int|
                0 <= i < r@.len() ==> shows(
                    #[trigger] r@[i],
                    self.doc().lines(),
                    self.view_offset(),
                    *viewport,
                    i,
                ),
    {
        proof {
            self.document.lemma_lines_fit();
        }
        let height = viewport.height as usize;
        let start = self.offset.x;
        let end = if start <= usize::MAX - viewport.width as usize {
            start + viewport.width as usize
        } else {
            usize::MAX
        };
        let mut out: Vec<ScreenLine> = Vec::new();
        let mut i: usize = 0;
        while i < height
            invariant
                height == viewport.height,
                i <= height,
                out@.len() == i,
                lines_fit(self.doc().lines()),
                start == self.view_offset().x,
                end == clamp_end(start + viewport.width, usize::MAX as int),
                forall|k: int|
                    0 <= k < i ==> shows(
                        #[trigger] out@[k],
                        self.doc().lines(),
                        self.view_offset(),
                        *viewport,
                        k,
                    ),
            decreases height - i,
        {
            let line = if self.offset.y <= usize::MAX - i {
                match self.document.row(self.offset.y + i) {
                    Some(row) => ScreenLine::Text(row.render(start, end)),
                    None => if self.document.is_empty() && i == height / 2 {
                        ScreenLine::Welcome
                    } else {
                        ScreenLine::Filler
                    },
                }
            } else if self.document.is_empty() && i == height / 2 {
                ScreenLine::Welcome
            } else {
                ScreenLine::Filler
            };
            out.push(line);
            i = i + 1;
        }
        out
    }

    /// Where the cursor stands on the screen: its place relative to the
    /// viewport, or 0 on an axis where the viewport starts past it.
    pub fn screen_cursor(&self) -> (r: Position)
        ensures
            r.x == if self.cursor().x >= self.view_offset().x {
                self.cursor().x - self.view_offset().x
            } else {
                0
            },
            r.y == if self.cursor().y >= self.view_offset().y {
                self.cursor().y - self.view_offset().y
            } else {
                0
            },
    {
        let c = self.cursor_position;
        let o = self.offset;
        Position {
            x: if c.x >= o.x { c.x - o.x } else { 0 },
            y: if c.y >= o.y { c.y - o.y } else { 0 },
        }
    }

    /// Scrolls the viewport the least that shows the cursor.
    pub fn scroll(&mut self, viewport: &Size)
        ensures
            final(self).view_offset() == scrolled(old(self).view_offset(), old(self).cursor(), *viewport),
            viewport.width > 0 ==> final(self).view_offset().x <= final(self).cursor().x
                < final(self).view_offset().x + viewport.width,
            viewport.height > 0 ==> final(self).view_offset().y <= final(self).cursor().y
                < final(self).view_offset().y + viewport.height,
            final(self).doc() == old(self).doc(),
            final(self).cursor() == old(self).cursor(),
            final(self).quitting() == old(self).quitting(),
    {
        let x = self.cursor_position.x;
        let y = self.cursor_position.y;
        let width = viewport.width as usize;
        let height = viewport.height as usize;
        self.offset.y = scroll_to(y, self.offset.y, height);
        self.offset.x = scroll_to(x, self.offset.x, width);
    }
}

/// The least scroll along one axis that shows `pos` in a window of `extent`
/// cells starting at `off`.
fn scroll_to(pos: usize, off: usize, extent: usize) -> (r: usize)
    ensures
        r == scroll_axis(pos as int, off as int, extent as int),
{
    if pos < off {
        pos
    } else if pos - off >= extent {
        if pos - extent < usize::MAX {
            pos - extent + 1
        } else {
            usize::MAX
        }
    } else {
        off
    }
}

} // verus!
