use vstd::prelude::*;
use vstd::std_specs::iter::IteratorSpec;
use vstd::string::*;

use crate::editor::Position;

verus! {

/// Relies on `String::push`: the character is appended at the end of the string.
#[verifier::external_body]
pub(crate) fn push_char(s: &mut String, c: char)
    ensures
        final(s)@ == old(s)@.push(c),
{
    s.push(c);
}

/// The codepoints of `s`, in order.
fn chars_of(s: &str) -> (r: Vec<char>)
    ensures
        r@ == s@,
{
    broadcast use axiom_spec_iter, next_postcondition;

    let mut out: Vec<char> = Vec::new();
    let mut it = s.chars();
    loop
        invariant
            out@ + it.remaining() == s@,
            it.decrease() is Some,
        decreases it.decrease()->0,
    {
        match it.next() {
            None => {
                assert(out@ =~= s@);
                return out;
            },
            Some(c) => {
                out.push(c);
            },
        }
    }
}

/// One line of text: its codepoints and their cached count.
pub struct Row {
    data: Vec<char>,
    len: usize,
}

impl View for Row {
    type V = Seq<char>;

    closed spec fn view(&self) -> Seq<char> {
        self.data@
    }
}

impl Row {
    #[verifier::type_invariant]
    spec fn inv(&self) -> bool {
        self.len == self.data@.len()
    }

    fn from_chars(data: Vec<char>) -> (r: Row)
        ensures
            r@ == data@,
    {
        let len = data.len();
        Row { data, len }
    }

    /// A row holding the codepoints of `slice`.
    pub fn from(slice: &str) -> (r: Row)
        ensures
            r@ == slice@,
    {
        Row::from_chars(chars_of(slice))
    }

    /// The codepoints between columns `start` and `end`, both clamped to the
    /// row; inverted bounds give an empty string.
    pub fn render(&self, start: usize, end: usize) -> (r: String)
        ensures
            r@ == self@.subrange(
                clamp_start(start as int, end as int, self@.len() as int),
                clamp_end(end as int, self@.len() as int),
            ),
    {
        let end = if end < self.data.len() { end } else { self.data.len() };
        let start = if start < end { start } else { end };
        let mut out = String::new();
        let mut i = start;
        while i < end
            invariant
                start <= i <= end <= self.data@.len(),
                out@ == self.data@.subrange(start as int, i as int),
            decreases end - i,
        {
            push_char(&mut out, self.data[i]);
            i = i + 1;
            assert(out@ =~= self.data@.subrange(start as int, i as int));
        }
        out
    }

    /// The codepoint at column `i`.
    pub fn char_at(&self, i: usize) -> (r: char)
        requires
            i < self@.len(),
        ensures
            r == self@[i as int],
    {
        self.data[i]
    }

    /// The number of codepoints in the row.
    pub fn len(&self) -> (r: usize)
        ensures
            r == self@.len(),
    {
        proof {
            use_type_invariant(self);
        }
        self.len
    }

    /// Inserts `c` before column `xpos`.
    pub fn insert(&mut self, xpos: usize, c: char)
        requires
            xpos <= old(self)@.len(),
        ensures
            final(self)@ == old(self)@.insert(xpos as int, c),
    {
        let mut data: Vec<char> = Vec::new();
        let mut i: usize = 0;
        while i < xpos
            invariant
                xpos <= self.data@.len(),
                i <= xpos,
                data@ == self.data@.take(i as int),
            decreases xpos - i,
        {
            data.push(self.data[i]);
            i = i + 1;
            assert(data@ =~= self.data@.take(i as int));
        }
        data.push(c);
        while i < self.data.len()
            invariant
                xpos <= i <= self.data@.len(),
                data@ == self.data@.take(xpos as int).push(c) + self.data@.subrange(
                    xpos as int,
                    i as int,
                ),
            decreases self.data@.len() - i,
        {
            data.push(self.data[i]);
            i = i + 1;
            assert(data@ =~= self.data@.take(xpos as int).push(c) + self.data@.subrange(
                xpos as int,
                i as int,
            ));
        }
        assert(data@ =~= self.data@.insert(xpos as int, c));
        *self = Row::from_chars(data);
    }

    /// Removes the codepoint at column `xpos`.
    pub fn delete(&mut self, xpos: usize)
        requires
            xpos < old(self)@.len(),
        ensures
            final(self)@ == old(self)@.remove(xpos as int),
    {
        let mut data: Vec<char> = Vec::new();
        let mut i: usize = 0;
        while i < self.data.len()
            invariant
                xpos < self.data@.len(),
                i <= self.data@.len(),
                data@ == self.data@.remove(xpos as int).take(
                    if i <= xpos { i as int } else { i - 1 },
                ),
            decreases self.data@.len() - i,
        {
            if i != xpos {
                data.push(self.data[i]);
            }
            i = i + 1;
            assert(data@ =~= self.data@.remove(xpos as int).take(
                if i <= xpos { i as int } else { i - 1 },
            ));
        }
        assert(data@ =~= self.data@.remove(xpos as int));
        *self = Row::from_chars(data);
    }

    /// Appends the content of `other` at the end of the row.
    pub fn append(&mut self, other: &Self)
        ensures
            final(self)@ == old(self)@ + other@,
    {
        let mut data: Vec<char> = Vec::new();
        let mut i: usize = 0;
        while i < self.data.len()
            invariant
                i <= self.data@.len(),
                data@ == self.data@.take(i as int),
            decreases self.data@.len() - i,
        {
            data.push(self.data[i]);
            i = i + 1;
            assert(data@ =~= self.data@.take(i as int));
        }
        let mut j: usize = 0;
        while j < other.data.len()
            invariant
                i == self.data@.len(),
                j <= other.data@.len(),
                data@ == self.data@ + other.data@.take(j as int),
            decreases other.data@.len() - j,
        {
            data.push(other.data[j]);
            j = j + 1;
            assert(data@ =~= self.data@ + other.data@.take(j as int));
        }
        assert(data@ =~= self.data@ + other.data@);
        *self = Row::from_chars(data);
    }

    /// The row cut at column `at`: what lies before it, and what lies from it on.
    pub fn split(&self, at: usize) -> (r: (Row, Row))
        requires
            at <= self@.len(),
        ensures
            r.0@ == self@.take(at as int),
            r.1@ == self@.skip(at as int),
    {
        let mut before: Vec<char> = Vec::new();
        let mut after: Vec<char> = Vec::new();
        let mut i: usize = 0;
        while i < self.data.len()
            invariant
                at <= self.data@.len(),
                i <= self.data@.len(),
                i <= at ==> before@ == self.data@.take(i as int) && after@ == Seq::<char>::empty(),
                i > at ==> before@ == self.data@.take(at as int) && after@ == self.data@.subrange(
                    at as int,
                    i as int,
                ),
            decreases self.data@.len() - i,
        {
            if i < at {
                before.push(self.data[i]);
            } else {
                after.push(self.data[i]);
            }
            i = i + 1;
            assert(before@ =~= self.data@.take(if i <= at { i as int } else { at as int }));
            assert(i > at ==> after@ =~= self.data@.subrange(at as int, i as int));
        }
        assert(before@ =~= self.data@.take(at as int));
        assert(after@ =~= self.data@.skip(at as int));
        (Row::from_chars(before), Row::from_chars(after))
    }
}

impl Default for Row {
    fn default() -> (r: Row)
        ensures
            r@ == Seq::<char>::empty(),
    {
        Row::from_chars(Vec::new())
    }
}

/// Where a clamped rendering ends: `end`, but never past the row.
pub open spec fn clamp_end(end: int, len: int) -> int {
    if end < len {
        end
    } else {
        len
    }
}

/// Where a clamped rendering starts: `start`, but never past its end.
pub open spec fn clamp_start(start: int, end: int, len: int) -> int {
    if start < clamp_end(end, len) {
        start
    } else {
        clamp_end(end, len)
    }
}

/// Cutting a line and appending the second part onto the first gives the line back.
pub proof fn lemma_split_append(l: Seq<char>, x: int)
    requires
        0 <= x <= l.len(),
    ensures
        l.take(x) + l.skip(x) == l,
{
    assert(l.take(x) + l.skip(x) =~= l);
}


/// The text of each row, in order.
pub open spec fn rows_view(rows: Seq<Row>) -> Seq<Seq<char>> {
    rows.map_values(|r: Row| r@)
}

/// Drops one carriage return at the end of a line, if there is one.
pub open spec fn strip_cr(l: Seq<char>) -> Seq<char> {
    if l.len() > 0 && l.last() == '\r' {
        l.drop_last()
    } else {
        l
    }
}

/// Reads `s` from the left: the lines that a newline has closed, and the
/// codepoints read since the last newline.
pub open spec fn scan(s: Seq<char>) -> (Seq<Seq<char>>, Seq<char>)
    decreases s.len(),
{
    if s.len() == 0 {
        (Seq::empty(), Seq::empty())
    } else {
        let (done, cur) = scan(s.drop_last());
        if s.last() == '\n' {
            (done.push(strip_cr(cur)), Seq::empty())
        } else {
            (done, cur.push(s.last()))
        }
    }
}

/// The lines of a text: split at each `\n`, a line closed by `\r\n` loses its
/// `\r`, and a final newline opens no empty line.
pub open spec fn parse_lines(s: Seq<char>) -> Seq<Seq<char>> {
    let (done, cur) = scan(s);
    if cur.len() == 0 {
        done
    } else {
        done.push(cur)
    }
}

/// The text that saving writes: each line followed by one `\n`.
pub open spec fn joined(lines: Seq<Seq<char>>) -> Seq<char>
    decreases lines.len(),
{
    if lines.len() == 0 {
        Seq::empty()
    } else {
        joined(lines.drop_last()) + lines.last() + seq!['\n']
    }
}

/// The length of row `y`; the row past the last one counts as empty.
pub open spec fn row_len(lines: Seq<Seq<char>>, y: int) -> int {
    if 0 <= y < lines.len() {
        lines[y].len() as int
    } else {
        0
    }
}

/// The number of rows, and the length of each, fit in a `usize`.
pub open spec fn lines_fit(lines: Seq<Seq<char>>) -> bool {
    &&& lines.len() <= usize::MAX
    &&& forall|i: int| 0 <= i < lines.len() ==> #[trigger] lines[i].len() <= usize::MAX
}

/// Whether `p` names a place in the buffer: a column of an existing row, or
/// the start of the row just past the last one.
pub open spec fn valid_position(lines: Seq<Seq<char>>, p: Position) -> bool {
    p.y <= lines.len() && p.x <= row_len(lines, p.y as int)
}

/// Row `y` cut at column `x` into two rows; nothing changes past the last row.
pub open spec fn split_lines(lines: Seq<Seq<char>>, x: int, y: int) -> Seq<Seq<char>> {
    if 0 <= y < lines.len() {
        lines.take(y) + seq![lines[y].take(x), lines[y].skip(x)] + lines.skip(y + 1)
    } else {
        lines
    }
}

/// The lines after typing `c` at column `x` of row `y`.
pub open spec fn inserted(lines: Seq<Seq<char>>, x: int, y: int, c: char) -> Seq<Seq<char>> {
    if c == '\n' {
        split_lines(lines, x, y)
    } else if y == lines.len() {
        lines.push(seq![c])
    } else {
        lines.update(y, lines[y].insert(x, c))
    }
}

/// The lines after a forward delete at column `x` of row `y`: the codepoint
/// there goes, or at the end of a row the next row is joined onto it.
pub open spec fn deleted(lines: Seq<Seq<char>>, x: int, y: int) -> Seq<Seq<char>> {
    if y < 0 || y >= lines.len() {
        lines
    } else if x < lines[y].len() {
        lines.update(y, lines[y].remove(x))
    } else if y + 1 < lines.len() {
        lines.take(y).push(lines[y] + lines[y + 1]) + lines.skip(y + 2)
    } else {
        lines
    }
}

/// A text file held as rows, with its name and whether it changed since it
/// was opened or last saved.
pub struct Document {
    filename: Option<String>,
    rows: Vec<Row>,
    is_modified: bool,
}

impl Document {
    /// The text of each row.
    pub closed spec fn lines(&self) -> Seq<Seq<char>> {
        rows_view(self.rows@)
    }

    /// Whether the rows changed since the document was opened or saved.
    pub closed spec fn modified(&self) -> bool {
        self.is_modified
    }

    /// The name of the file that the document is saved to.
    pub closed spec fn name(&self) -> Option<Seq<char>> {
        match self.filename {
            Some(f) => Some(f@),
            None => None,
        }
    }

    /// The number of rows, and the length of each, fit in a `usize`.
    pub proof fn lemma_lines_fit(&self)
        ensures
            lines_fit(self.lines()),
    {
        assert(self.rows@.len() == self.rows.len());
        assert(self.lines().len() == self.rows@.len());
        assert forall|i: int| 0 <= i < self.lines().len() implies self.lines()[i].len()
            <= usize::MAX by {
            let r = self.rows@[i];
            assert(r.data@.len() == r.data.len());
        }
    }

    /// A document named `filename` whose rows are the lines of `contents`.
    /// The contents of a file that does not exist yet are empty.
    pub fn from_contents(filename: &str, contents: &str) -> (r: Document)
        ensures
            r.lines() == parse_lines(contents@),
            r.name() == Some(filename@),
            !r.modified(),
    {
        let text = chars_of(contents);
        let mut rows: Vec<Row> = Vec::new();
        let mut cur: Vec<char> = Vec::new();
        let mut i: usize = 0;
        while i < text.len()
            invariant
                i <= text@.len(),
                (rows_view(rows@), cur@) == scan(text@.take(i as int)),
            decreases text@.len() - i,
        {
            let c = text[i];
            proof {
                assert(text@.take(i + 1).drop_last() =~= text@.take(i as int));
            }
            if c == '\n' {
                if cur.len() > 0 && cur[cur.len() - 1] == '\r' {
                    cur.pop();
                }
                let row = Row::from_chars(cur);
                rows.push(row);
                cur = Vec::new();
            } else {
                cur.push(c);
            }
            i = i + 1;
            assert(rows_view(rows@) =~= scan(text@.take(i as int)).0);
            assert(cur@ =~= scan(text@.take(i as int)).1);
        }
        assert(text@.take(i as int) =~= contents@);
        if cur.len() > 0 {
            let row = Row::from_chars(cur);
            rows.push(row);
            assert(rows_view(rows@) =~= parse_lines(contents@));
        }
        Document { filename: Some(String::from_str(filename)), rows, is_modified: false }
    }

    /// The row at `index`, if there is one.
    pub fn row(&self, index: usize) -> (r: Option<&Row>)
        ensures
            r is Some <==> index < self.lines().len(),
            r matches Some(row) ==> row@ == self.lines()[index as int],
    {
        if index < self.rows.len() {
            Some(&self.rows[index])
        } else {
            None
        }
    }

    /// Whether the document has no rows.
    pub fn is_empty(&self) -> (r: bool)
        ensures
            r == (self.lines().len() == 0),
    {
        self.rows.len() == 0
    }

    /// The number of rows.
    pub fn len(&self) -> (r: usize)
        ensures
            r == self.lines().len(),
    {
        self.rows.len()
    }

    /// Cuts the row at `pos` in two at column `pos.x`; past the last row the
    /// rows stay as they are.
    pub fn insert_newline(&mut self, pos: &Position)
        requires
            valid_position(old(self).lines(), *pos),
        ensures
            final(self).lines() == split_lines(old(self).lines(), pos.x as int, pos.y as int),
            final(self).modified(),
            final(self).name() == old(self).name(),
    {
        if pos.y < self.rows.len() {
            let (up, down) = self.rows[pos.y].split(pos.x);
            let ghost old_rows = self.rows@;
            self.rows.remove(pos.y);
            self.rows.insert(pos.y, up);
            self.rows.insert(pos.y + 1, down);
            assert(rows_view(self.rows@) =~= split_lines(rows_view(old_rows), pos.x as int, pos.y as int));
        }
        self.is_modified = true;
    }

    /// Types `c` at `pos`: a newline cuts the row, any other codepoint goes
    /// in before column `pos.x`, on a new row when `pos` is past the last one.
    pub fn insert(&mut self, pos: &Position, c: char)
        requires
            valid_position(old(self).lines(), *pos),
        ensures
            final(self).lines() == inserted(old(self).lines(), pos.x as int, pos.y as int, c),
            final(self).modified(),
            final(self).name() == old(self).name(),
    {
        if c == '\n' {
            self.insert_newline(pos);
            return;
        }
        let ghost old_lines = self.lines();
        if pos.y == self.rows.len() {
            let row = Row::default();
            self.rows.push(row);
        }
        let ghost mid_lines = rows_view(self.rows@);
        assert(mid_lines[pos.y as int].len() >= pos.x);
        self.rows[pos.y].insert(pos.x, c);
        proof {
            if pos.y == old_lines.len() {
                assert(mid_lines[pos.y as int] =~= Seq::<char>::empty());
                assert(mid_lines[pos.y as int].insert(pos.x as int, c) =~= seq![c]);
            }
        }
        assert(rows_view(self.rows@) =~= inserted(old_lines, pos.x as int, pos.y as int, c));
        self.is_modified = true;
    }

    /// Deletes forward at `pos`: the codepoint at column `pos.x`, or at the
    /// end of a row the newline, joining the next row onto it. At the end of
    /// the last row there is nothing to join and the rows stay as they are.
    /// Past the last row nothing happens at all; on any existing row the
    /// document counts as modified.
    pub fn delete(&mut self, pos: &Position)
        ensures
            final(self).lines() == deleted(old(self).lines(), pos.x as int, pos.y as int),
            final(self).modified() == (old(self).modified() || pos.y < old(self).lines().len()),
            final(self).name() == old(self).name(),
    {
        if pos.y >= self.rows.len() {
            return;
        }
        let ghost old_rows = self.rows@;
        let row_len = self.rows[pos.y].len();
        if row_len <= pos.x {
            let next_row = if pos.y + 1 < self.rows.len() {
                self.rows.remove(pos.y + 1)
            } else {
                Row::default()
            };
            self.rows[pos.y].append(&next_row);
            assert(rows_view(self.rows@) =~= deleted(rows_view(old_rows), pos.x as int, pos.y as int));
        } else {
            self.rows[pos.y].delete(pos.x);
            assert(rows_view(self.rows@) =~= deleted(rows_view(old_rows), pos.x as int, pos.y as int));
        }
        self.is_modified = true;
    }

    /// The text that saving writes: each row followed by one newline.
    pub fn serialize(&self) -> (r: String)
        ensures
            r@ == joined(self.lines()),
    {
        let mut out = String::new();
        let mut i: usize = 0;
        while i < self.rows.len()
            invariant
                i <= self.rows@.len(),
                out@ == joined(rows_view(self.rows@).take(i as int)),
            decreases self.rows@.len() - i,
        {
            let row = &self.rows[i];
            let n = row.len();
            let mut j: usize = 0;
            while j < n
                invariant
                    i < self.rows@.len(),
                    row == self.rows@[i as int],
                    n == row@.len(),
                    j <= n,
                    out@ == joined(rows_view(self.rows@).take(i as int)) + row@.take(j as int),
                decreases n - j,
            {
                push_char(&mut out, row.char_at(j));
                j = j + 1;
                assert(out@ =~= joined(rows_view(self.rows@).take(i as int)) + row@.take(j as int));
            }
            push_char(&mut out, '\n');
            proof {
                let next = rows_view(self.rows@).take(i + 1);
                assert(next.drop_last() =~= rows_view(self.rows@).take(i as int));
                assert(row@.take(j as int) =~= next.last());
            }
            i = i + 1;
        }
        assert(rows_view(self.rows@).take(i as int) =~= self.lines());
        out
    }

    /// Records that the document was written out.
    pub fn mark_saved(&mut self)
        ensures
            final(self).lines() == old(self).lines(),
            !final(self).modified(),
            final(self).name() == old(self).name(),
    {
        self.is_modified = false;
    }

    /// Whether the rows changed since the document was opened or saved.
    pub fn get_modified(&mut self) -> (r: bool)
        ensures
            r == old(self).modified(),
            *final(self) == *old(self),
    {
        self.is_modified
    }

    /// Whether the rows changed since the document was opened or saved.
    pub fn is_modified(&self) -> (r: bool)
        ensures
            r == self.modified(),
    {
        self.is_modified
    }

    /// The name of the file that the document is saved to, if it has one.
    pub fn filename(&self) -> (r: Option<&String>)
        ensures
            r is Some <==> self.name() is Some,
            r matches Some(f) ==> self.name() == Some(f@),
    {
        match &self.filename {
            Some(f) => Some(f),
            None => None,
        }
    }
}

impl Default for Document {
    /// An unnamed document with no rows.
    fn default() -> (r: Document)
        ensures
            r.lines() == Seq::<Seq<char>>::empty(),
            r.name() is None,
            !r.modified(),
    {
        let d = Document { filename: None, rows: Vec::new(), is_modified: false };
        assert(d.lines() =~= Seq::<Seq<char>>::empty());
        d
    }
}

/// Typing a codepoint other than a newline on an existing row and then
/// deleting forward at the same place gives the rows back.
pub proof fn lemma_insert_then_delete(lines: Seq<Seq<char>>, p: Position, c: char)
    requires
        valid_position(lines, p),
        p.y < lines.len(),
        c != '\n',
    ensures
        deleted(inserted(lines, p.x as int, p.y as int, c), p.x as int, p.y as int) == lines,
{
    let (x, y) = (p.x as int, p.y as int);
    assert(lines[y].insert(x, c).remove(x) =~= lines[y]);
    assert(deleted(inserted(lines, x, y, c), x, y) =~= lines);
}

/// Cutting a row with a newline and then deleting forward at the cut joins
/// the two parts back into the row.
pub proof fn lemma_split_then_join(lines: Seq<Seq<char>>, p: Position)
    requires
        valid_position(lines, p),
        p.y < lines.len(),
    ensures
        deleted(split_lines(lines, p.x as int, p.y as int), p.x as int, p.y as int) == lines,
{
    let (x, y) = (p.x as int, p.y as int);
    let s = split_lines(lines, x, y);
    assert(s[y] =~= lines[y].take(x));
    assert(s[y + 1] =~= lines[y].skip(x));
    assert(lines[y].take(x) + lines[y].skip(x) =~= lines[y]);
    assert(deleted(s, x, y) =~= lines);
}

/// A line that reads back as itself from a saved file: no newline in it,
/// and no carriage return at its end.
pub open spec fn plain_line(l: Seq<char>) -> bool {
    &&& forall|i: int| 0 <= i < l.len() ==> l[i] != '\n'
    &&& !(l.len() > 0 && l.last() == '\r')
}

proof fn lemma_scan_append(a: Seq<char>, b: Seq<char>)
    requires
        forall|i: int| 0 <= i < b.len() ==> b[i] != '\n',
    ensures
        scan(a + b) == (scan(a).0, scan(a).1 + b),
    decreases b.len(),
{
    if b.len() == 0 {
        assert(a + b =~= a);
        assert(scan(a).1 + b =~= scan(a).1);
    } else {
        let bs = b.drop_last();
        lemma_scan_append(a, bs);
        assert((a + b).drop_last() =~= a + bs);
        assert((a + b).last() == b.last());
        assert(scan(a).1 + bs.push(b.last()) =~= scan(a).1 + b);
        assert(bs.push(b.last()) =~= b);
        assert((scan(a).1 + bs).push(b.last()) =~= scan(a).1 + b);
    }
}

proof fn lemma_scan_joined(lines: Seq<Seq<char>>)
    requires
        forall|i: int| 0 <= i < lines.len() ==> plain_line(#[trigger] lines[i]),
    ensures
        scan(joined(lines)) == (lines, Seq::<char>::empty()),
    decreases lines.len(),
{
    if lines.len() > 0 {
        let init = lines.drop_last();
        let l = lines.last();
        assert(plain_line(lines[lines.len() - 1]));
        lemma_scan_joined(init);
        lemma_scan_append(joined(init), l);
        let t = joined(lines);
        assert(t.drop_last() =~= joined(init) + l);
        assert(Seq::<char>::empty() + l =~= l);
        assert(init.push(l) =~= lines);
    }
}

/// Saving and opening again gives the same rows, when no row holds a
/// newline or ends in a carriage return.
pub proof fn lemma_save_then_open(lines: Seq<Seq<char>>)
    requires
        forall|i: int| 0 <= i < lines.len() ==> plain_line(#[trigger] lines[i]),
    ensures
        parse_lines(joined(lines)) == lines,
{
    lemma_scan_joined(lines);
}

} // verus!
