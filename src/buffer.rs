use vstd::prelude::*;
use crate::geometry::Point;

verus! {

/// Keys that the buffer and the prompt react to; every other key is `Other`.
#[derive(Debug, Clone, Copy, PartialEq, Eq, Structural)]
pub enum Key {
    Up,
    Down,
    Left,
    Right,
    Tab,
    Other,
}

/// One input event addressed to a text surface.
#[derive(Debug, Clone, Copy, PartialEq, Eq, Structural)]
pub enum EditorMessage {
    Keypress(Key),
    Char(char),
}

pub const BACKSPACE: char = '\x08';

pub const CARRIAGE_RETURN: char = '\r';

pub const TAB: char = '\t';

/// The indent inserted by the tab key.
pub open spec fn indent() -> Seq<char> {
    seq![' ', ' ', ' ', ' ']
}

/// Visible ASCII: the only characters typed into a buffer.
pub open spec fn printable(c: char) -> bool {
    32 <= (c as u32) && (c as u32) <= 126
}

/// The buffer and each of its lines are short enough to be held in memory.
pub open spec fn fits(text: Seq<Seq<char>>) -> bool {
    &&& text.len() <= usize::MAX
    &&& forall|i: int| 0 <= i < text.len() ==> #[trigger] text[i].len() <= usize::MAX
}

/// At least one line, and the cursor on a line and at most at its end.
pub open spec fn valid(text: Seq<Seq<char>>, p: Point) -> bool {
    &&& text.len() >= 1
    &&& p.row < text.len()
    &&& p.column <= text[p.row as int].len()
}

/// Where the cursor lands after a directional key: one step, never below
/// zero, then the row clamped to the last line and the column to that line's
/// length.
pub open spec fn moved(text: Seq<Seq<char>>, p: Point, key: Key) -> Point {
    let (r, c) = match key {
        Key::Up => (if p.row > 0 { p.row - 1 } else { 0int }, p.column as int),
        Key::Down => (p.row + 1, p.column as int),
        Key::Left => (p.row as int, if p.column > 0 { p.column - 1 } else { 0int }),
        Key::Right => (p.row as int, p.column + 1),
        _ => (p.row as int, p.column as int),
    };
    let row = if r >= text.len() { text.len() - 1 } else { r };
    let column = if c >= text[row].len() { text[row].len() as int } else { c };
    Point { row: row as usize, column: column as usize }
}

/// `s` inserted at the cursor on its own line; the cursor moves past it.
pub open spec fn inserted(text: Seq<Seq<char>>, p: Point, s: Seq<char>) -> (Seq<Seq<char>>, Point) {
    let line = text[p.row as int];
    (
        text.update(p.row as int, line.take(p.column as int) + s + line.skip(p.column as int)),
        Point { row: p.row, column: (p.column + s.len()) as usize },
    )
}

/// Deletes the character before the cursor, or joins the line onto the
/// previous one at the start of a line; nothing at the start of the buffer.
pub open spec fn backspaced(text: Seq<Seq<char>>, p: Point) -> (Seq<Seq<char>>, Point) {
    let line = text[p.row as int];
    if p.column > 0 {
        (
            text.update(p.row as int, line.remove(p.column - 1)),
            Point { row: p.row, column: (p.column - 1) as usize },
        )
    } else if p.row > 0 {
        let prev = text[p.row - 1];
        (
            text.update(p.row - 1, prev + line).remove(p.row as int),
            Point { row: (p.row - 1) as usize, column: prev.len() as usize },
        )
    } else {
        (text, p)
    }
}

/// Splits the line at the cursor; the cursor goes to the start of the tail.
pub open spec fn split(text: Seq<Seq<char>>, p: Point) -> (Seq<Seq<char>>, Point) {
    let line = text[p.row as int];
    (
        text.update(p.row as int, line.take(p.column as int)).insert(
            p.row + 1,
            line.skip(p.column as int),
        ),
        Point { row: (p.row + 1) as usize, column: 0 },
    )
}

/// The buffer after one message.
pub open spec fn edited(text: Seq<Seq<char>>, p: Point, m: EditorMessage) -> (Seq<Seq<char>>, Point) {
    match m {
        EditorMessage::Keypress(Key::Tab) => inserted(text, p, indent()),
        EditorMessage::Keypress(Key::Other) => (text, p),
        EditorMessage::Keypress(k) => (text, moved(text, p, k)),
        EditorMessage::Char(c) => {
            if c == BACKSPACE {
                backspaced(text, p)
            } else if c == CARRIAGE_RETURN {
                split(text, p)
            } else if printable(c) {
                inserted(text, p, seq![c])
            } else {
                (text, p)
            }
        },
    }
}

/// The lines joined with single newlines.
pub open spec fn joined(text: Seq<Seq<char>>) -> Seq<char>
    decreases text.len(),
{
    if text.len() == 0 {
        Seq::empty()
    } else if text.len() == 1 {
        text[0]
    } else {
        joined(text.drop_last()) + seq!['\n'] + text.last()
    }
}

/// `s` cut at every newline; always at least one (possibly empty) piece.
pub open spec fn pieces(s: Seq<char>) -> Seq<Seq<char>>
    decreases s.len(),
{
    if s.len() == 0 {
        seq![Seq::<char>::empty()]
    } else {
        let t = pieces(s.drop_last());
        if s.last() == '\n' {
            t.push(Seq::empty())
        } else {
            t.update(t.len() - 1, t.last().push(s.last()))
        }
    }
}

pub proof fn lemma_pieces_nonempty(s: Seq<char>)
    ensures
        pieces(s).len() >= 1,
    decreases s.len(),
{
    if s.len() > 0 {
        lemma_pieces_nonempty(s.drop_last());
    }
}

/// The lines of a text: cut at newlines, a carriage return right before a
/// newline dropped, and no line after a final newline (none at all for an
/// empty text).
pub open spec fn lines_of(s: Seq<char>) -> Seq<Seq<char>> {
    let p = pieces(s);
    let kept = if p.last().len() == 0 {
        p.drop_last()
    } else {
        p
    };
    Seq::new(
        kept.len(),
        |i: int|
            if i + 1 < p.len() && kept[i].len() > 0 && kept[i].last() == '\r' {
                kept[i].drop_last()
            } else {
                kept[i]
            },
    )
}

/// Every message keeps the buffer valid: at least one line, the cursor on a
/// line and at most at its end.
pub proof fn lemma_edited_valid(text: Seq<Seq<char>>, p: Point, m: EditorMessage)
    requires
        valid(text, p),
        fits(text),
        fits(edited(text, p, m).0),
    ensures
        valid(edited(text, p, m).0, edited(text, p, m).1),
{
    let (tb, pb) = edited(text, p, m);
    let line = text[p.row as int];
    match m {
        EditorMessage::Keypress(Key::Tab) => {
            assert(tb[p.row as int] == line.take(p.column as int) + indent() + line.skip(p.column as int));
            assert(tb[p.row as int].len() <= usize::MAX);
        },
        EditorMessage::Char(c) => {
            if c == BACKSPACE {
                if p.column == 0 && p.row > 0 {
                    assert(tb[pb.row as int] == text[p.row - 1] + line);
                    assert(text[p.row - 1].len() <= usize::MAX);
                }
            } else if c == CARRIAGE_RETURN {
            } else if printable(c) {
                assert(tb[p.row as int] == line.take(p.column as int) + seq![c] + line.skip(p.column as int));
                assert(tb[p.row as int].len() <= usize::MAX);
            }
        },
        _ => {},
    }
}

/// Typing a visible character and then backspacing restores the buffer and
/// the cursor exactly.
pub proof fn lemma_type_then_backspace(text: Seq<Seq<char>>, p: Point, c: char)
    requires
        valid(text, p),
        fits(text),
        printable(c),
        fits(edited(text, p, EditorMessage::Char(c)).0),
    ensures
        ({
            let (ta, pa) = edited(text, p, EditorMessage::Char(c));
            edited(ta, pa, EditorMessage::Char(BACKSPACE)) == (text, p)
        }),
{
    let (ta, pa) = edited(text, p, EditorMessage::Char(c));
    let line = text[p.row as int];
    let typed = line.take(p.column as int) + seq![c] + line.skip(p.column as int);
    assert(ta[p.row as int] == typed);
    assert(typed.len() <= usize::MAX);
    assert(pa.column == p.column + 1);
    assert(typed.remove(p.column as int) =~= line);
    assert(ta.update(p.row as int, line) =~= text);
}

/// Splitting a line and backspacing at the start of the new line restores
/// the line and the cursor as they were.
pub proof fn lemma_split_then_join(text: Seq<Seq<char>>, p: Point)
    requires
        valid(text, p),
        fits(text),
        fits(edited(text, p, EditorMessage::Char(CARRIAGE_RETURN)).0),
    ensures
        ({
            let (ta, pa) = edited(text, p, EditorMessage::Char(CARRIAGE_RETURN));
            edited(ta, pa, EditorMessage::Char(BACKSPACE)) == (text, p)
        }),
{
    let (ta, pa) = edited(text, p, EditorMessage::Char(CARRIAGE_RETURN));
    let line = text[p.row as int];
    assert(ta.len() == text.len() + 1);
    assert(pa.row == p.row + 1);
    assert(ta[p.row as int] == line.take(p.column as int));
    assert(ta[p.row + 1] == line.skip(p.column as int));
    assert(line.take(p.column as int) + line.skip(p.column as int) =~= line);
    assert(ta.update(p.row as int, line).remove(p.row + 1) =~= text);
}

/// A directional move from any cursor, even one outside the text, lands on
/// a line and at most at its end.
pub proof fn lemma_move_lands_inside(text: Seq<Seq<char>>, p: Point, key: Key)
    requires
        text.len() >= 1,
        fits(text),
    ensures
        valid(text, moved(text, p, key)),
{
    let q = moved(text, p, key);
    assert(text[q.row as int].len() <= usize::MAX);
}

/// Up and Down change the row by one within the text and clamp the column
/// to the length of the line they reach.
pub proof fn lemma_vertical_move(text: Seq<Seq<char>>, p: Point, key: Key)
    requires
        valid(text, p),
        fits(text),
        key == Key::Up || key == Key::Down,
    ensures
        ({
            let row: int = if key == Key::Up {
                if p.row > 0 { p.row - 1 } else { 0 }
            } else if p.row + 1 < text.len() {
                p.row + 1
            } else {
                text.len() - 1
            };
            let column: int = if p.column <= text[row].len() { p.column as int } else { text[row].len() as int };
            moved(text, p, key) == Point { row: row as usize, column: column as usize }
        }),
{
}

/// The cursor after each key of `keys` in turn.
pub open spec fn moved_all(text: Seq<Seq<char>>, p: Point, keys: Seq<Key>) -> Point
    decreases keys.len(),
{
    if keys.len() == 0 {
        p
    } else {
        moved_all(text, moved(text, p, keys[0]), keys.drop_first())
    }
}

/// However many vertical moves are made over lines of any lengths, the cursor
/// ends on a line and its column never exceeds that line's length.
pub proof fn lemma_vertical_moves_clamp(text: Seq<Seq<char>>, p: Point, keys: Seq<Key>)
    requires
        valid(text, p),
        fits(text),
        forall|i: int| 0 <= i < keys.len() ==> (keys[i] == Key::Up || keys[i] == Key::Down),
    ensures
        valid(text, moved_all(text, p, keys)),
        moved_all(text, p, keys).column <= text[moved_all(text, p, keys).row as int].len(),
    decreases keys.len(),
{
    if keys.len() > 0 {
        let q = moved(text, p, keys[0]);
        lemma_edited_valid(text, p, EditorMessage::Keypress(keys[0]));
        assert(edited(text, p, EditorMessage::Keypress(keys[0])) == (text, q));
        let rest = keys.drop_first();
        assert forall|i: int| 0 <= i < rest.len() implies (rest[i] == Key::Up || rest[i]
            == Key::Down) by {
            assert(rest[i] == keys[i + 1]);
        }
        lemma_vertical_moves_clamp(text, q, rest);
    }
}

fn split_pieces(s: &Vec<char>) -> (r: Vec<Vec<char>>)
    ensures
        Seq::new(r@.len(), |j: int| r@[j]@) == pieces(s@),
{
    let mut done: Vec<Vec<char>> = Vec::new();
    let mut cur: Vec<char> = Vec::new();
    let mut i: usize = 0;
    assert(s@.take(0) =~= Seq::<char>::empty());
    assert(Seq::new(done@.len(), |j: int| done@[j]@).push(cur@) =~= pieces(s@.take(0)));
    while i < s.len()
        invariant
            0 <= i <= s@.len(),
            Seq::new(done@.len(), |j: int| done@[j]@).push(cur@) == pieces(s@.take(i as int)),
        decreases s@.len() - i,
    {
        let ghost before = Seq::new(done@.len(), |j: int| done@[j]@);
        let ghost cur0 = cur@;
        assert(s@.take(i + 1).drop_last() =~= s@.take(i as int));
        assert(s@.take(i + 1).last() == s@[i as int]);
        if s[i] == '\n' {
            done.push(cur);
            cur = Vec::new();
            assert(Seq::new(done@.len(), |j: int| done@[j]@) =~= before.push(cur0));
            assert(Seq::new(done@.len(), |j: int| done@[j]@).push(cur@) =~= pieces(s@.take(i + 1)));
        } else {
            cur.push(s[i]);
            assert(Seq::new(done@.len(), |j: int| done@[j]@).push(cur@) =~= before.push(cur0).update(
                before.len() as int,
                cur0.push(s@[i as int]),
            ));
        }
        i = i + 1;
    }
    assert(s@.take(i as int) =~= s@);
    let ghost before = Seq::new(done@.len(), |j: int| done@[j]@);
    done.push(cur);
    assert(Seq::new(done@.len(), |j: int| done@[j]@) =~= before.push(cur@));
    done
}

/// The lines of a text, as a file holds them.
pub fn split_lines(s: &Vec<char>) -> (r: Vec<Vec<char>>)
    ensures
        Seq::new(r@.len(), |j: int| r@[j]@) == lines_of(s@),
{
    let mut p = split_pieces(s);
    let ghost pv = pieces(s@);
    proof {
        lemma_pieces_nonempty(s@);
    }
    assert(p@.len() == pv.len());
    let total = p.len();
    let last_len = p[total - 1].len();
    assert(pv.last() == p@[total - 1]@);
    if last_len == 0 {
        p.pop();
    }
    let ghost kept = if pv.last().len() == 0 {
        pv.drop_last()
    } else {
        pv
    };
    assert(Seq::new(p@.len(), |j: int| p@[j]@) =~= kept);
    let mut i: usize = 0;
    while i < p.len()
        invariant
            0 <= i <= p@.len(),
            p@.len() == kept.len(),
            total == pv.len(),
            kept.len() <= pv.len(),
            pv == pieces(s@),
            kept == (if pv.last().len() == 0 { pv.drop_last() } else { pv }),
            forall|j: int| i <= j < p@.len() ==> #[trigger] p@[j]@ == kept[j],
            forall|j: int| 0 <= j < i ==> #[trigger] p@[j]@ == lines_of(s@)[j],
        decreases p@.len() - i,
    {
        let n = p[i].len();
        if i + 1 < total && n > 0 && p[i][n - 1] == '\r' {
            p[i].pop();
            assert(p@[i as int]@ =~= kept[i as int].drop_last());
        }
        i = i + 1;
    }
    assert(Seq::new(p@.len(), |j: int| p@[j]@) =~= lines_of(s@));
    p
}

/// Lines of characters with a cursor.
pub struct TextBuffer {
    lines: Vec<Vec<char>>,
    cursor: Point,
}

impl TextBuffer {
    pub closed spec fn text(&self) -> Seq<Seq<char>> {
        Seq::new(self.lines@.len(), |i: int| self.lines@[i]@)
    }

    pub closed spec fn pos(&self) -> Point {
        self.cursor
    }

    pub open spec fn wf(&self) -> bool {
        valid(self.text(), self.pos())
    }

    /// One empty line, cursor at its start.
    pub fn new() -> (r: TextBuffer)
        ensures
            r.wf(),
            r.text() == seq![Seq::<char>::empty()],
            r.pos() == (Point { row: 0, column: 0 }),
    {
        let r = TextBuffer { lines: vec![Vec::new()], cursor: Point::new(0, 0) };
        assert(r.text() =~= seq![Seq::<char>::empty()]);
        r
    }

    /// Replaces the content with `lines` (one empty line if there are none)
    /// and puts the cursor at the start.
    pub fn load(&mut self, lines: Vec<Vec<char>>)
        ensures
            final(self).wf(),
            final(self).pos() == (Point { row: 0, column: 0 }),
            lines@.len() > 0 ==> final(self).text() == Seq::new(lines@.len(), |i: int| lines@[i]@),
            lines@.len() == 0 ==> final(self).text() == seq![Seq::<char>::empty()],
    {
        if lines.len() == 0 {
            self.lines = vec![Vec::new()];
            assert(self.text() =~= seq![Seq::<char>::empty()]);
        } else {
            self.lines = lines;
        }
        self.cursor = Point::new(0, 0);
    }

    pub fn line_count(&self) -> (r: usize)
        ensures
            r == self.text().len(),
    {
        self.lines.len()
    }

    pub fn line(&self, i: usize) -> (r: &Vec<char>)
        requires
            i < self.text().len(),
        ensures
            r@ == self.text()[i as int],
    {
        &self.lines[i]
    }

    /// The whole text, lines joined with single newlines.
    pub fn code(&self) -> (r: Vec<char>)
        ensures
            r@ == joined(self.text()),
    {
        let mut out: Vec<char> = Vec::new();
        let mut i: usize = 0;
        assert(self.text().take(0) =~= Seq::<Seq<char>>::empty());
        while i < self.lines.len()
            invariant
                0 <= i <= self.text().len(),
                self.text().len() == self.lines@.len(),
                out@ == joined(self.text().take(i as int)),
            decreases self.lines@.len() - i,
        {
            let ghost before = out@;
            if i > 0 {
                out.push('\n');
            }
            let line = &self.lines[i];
            let mut j: usize = 0;
            while j < line.len()
                invariant
                    0 <= j <= line@.len(),
                    i > 0 ==> out@ == before + seq!['\n'] + line@.take(j as int),
                    i == 0 ==> out@ == before + line@.take(j as int),
                decreases line@.len() - j,
            {
                out.push(line[j]);
                assert(line@.take(j + 1) =~= line@.take(j as int).push(line@[j as int]));
                j = j + 1;
            }
            assert(line@.take(j as int) =~= line@);
            let ghost t = self.text().take(i + 1);
            assert(t.drop_last() =~= self.text().take(i as int));
            assert(t.last() == line@);
            if i == 0 {
                assert(before =~= Seq::<char>::empty());
                assert(out@ =~= t[0]);
            }
            i = i + 1;
        }
        assert(self.text().take(i as int) =~= self.text());
        out
    }

    pub fn cursor(&self) -> (r: Point)
        ensures
            r == self.pos(),
    {
        self.cursor
    }

    fn move_cursor(&mut self, key: Key)
        requires
            old(self).wf(),
        ensures
            final(self).text() == old(self).text(),
            final(self).pos() == moved(old(self).text(), old(self).pos(), key),
    {
        let mut row = self.cursor.row;
        let mut column = self.cursor.column;
        match key {
            Key::Up => {
                if row > 0 {
                    row = row - 1;
                }
            },
            Key::Left => {
                if column > 0 {
                    column = column - 1;
                }
            },
            Key::Right => {
                if column < usize::MAX {
                    column = column + 1;
                }
            },
            Key::Down => {
                if row < self.lines.len() - 1 {
                    row = row + 1;
                }
            },
            _ => {},
        }
        if row >= self.lines.len() {
            row = self.lines.len() - 1;
        }
        let len = self.lines[row].len();
        if column >= len {
            column = len;
        }
        self.cursor = Point::new(row, column);
    }

    fn insert_str_single_line(&mut self, s: &Vec<char>)
        requires
            old(self).wf(),
        ensures
            (final(self).text(), final(self).pos()) == inserted(old(self).text(), old(self).pos(), s@),
    {
        let ghost t0 = self.text();
        let ghost line0 = t0[self.cursor.row as int];
        let ghost col0 = self.cursor.column as int;
        let row = self.cursor.row;
        let mut i: usize = 0;
        while i < s.len()
            invariant
                0 <= i <= s@.len(),
                row == self.cursor.row,
                row < self.lines@.len() == t0.len(),
                self.cursor.column == col0 + i,
                0 <= col0 <= line0.len(),
                line0 == t0[row as int],
                self.lines@[row as int]@ == line0.take(col0) + s@.take(i as int) + line0.skip(col0),
                forall|j: int| 0 <= j < t0.len() && j != row ==> self.lines@[j]@ == t0[j],
            decreases s@.len() - i,
        {
            let col = self.cursor.column;
            let ghost before = self.lines@[row as int]@;
            self.lines[row].insert(col, s[i]);
            assert(before == line0.take(col0) + s@.take(i as int) + line0.skip(col0));
            assert((line0.take(col0) + s@.take(i as int)).len() == col);
            assert(before.subrange(0, col as int) =~= line0.take(col0) + s@.take(i as int));
            assert(before.subrange(col as int, before.len() as int) =~= line0.skip(col0));
            assert(before.insert(col as int, s@[i as int]) =~= line0.take(col0) + s@.take(i + 1)
                + line0.skip(col0));
            let grown = self.lines[row].len();
            assert(col < grown);
            self.cursor.column = col + 1;
            assert(s@.take(i + 1) =~= s@.take(i as int).push(s@[i as int]));
            i = i + 1;
        }
        assert(s@.take(i as int) =~= s@);
        assert(self.text() =~= t0.update(row as int, line0.take(col0) + s@ + line0.skip(col0)));
    }

    fn backspace(&mut self)
        requires
            old(self).wf(),
        ensures
            (final(self).text(), final(self).pos()) == backspaced(old(self).text(), old(self).pos()),
    {
        let ghost t0 = self.text();
        let row = self.cursor.row;
        let column = self.cursor.column;
        if column > 0 {
            self.lines[row].remove(column - 1);
            self.cursor.column = column - 1;
            assert(self.text() =~= t0.update(row as int, t0[row as int].remove(column - 1)));
        } else if row > 0 {
            let mut tail = self.lines.remove(row);
            let restored = self.lines[row - 1].len();
            self.lines[row - 1].append(&mut tail);
            self.cursor = Point::new(row - 1, restored);
            assert(self.text() =~= t0.update(row - 1, t0[row - 1] + t0[row as int]).remove(
                row as int,
            ));
        }
    }

    fn newline(&mut self)
        requires
            old(self).wf(),
        ensures
            (final(self).text(), final(self).pos()) == split(old(self).text(), old(self).pos()),
    {
        let ghost t0 = self.text();
        let row = self.cursor.row;
        let column = self.cursor.column;
        let count = self.lines.len();
        assert(row < count);
        let tail = self.lines[row].split_off(column);
        self.lines.insert(row + 1, tail);
        self.cursor = Point::new(row + 1, 0);
        assert(self.text() =~= t0.update(row as int, t0[row as int].take(column as int)).insert(
            row + 1,
            t0[row as int].skip(column as int),
        ));
    }

    /// Applies one message: arrows move, tab indents, backspace deletes or
    /// joins, carriage return splits, visible ASCII is typed, the rest is
    /// ignored.
    pub fn apply(&mut self, m: EditorMessage)
        requires
            old(self).wf(),
        ensures
            final(self).wf(),
            (final(self).text(), final(self).pos()) == edited(old(self).text(), old(self).pos(), m),
    {
        let ghost t0 = self.text();
        let ghost start_pos = self.pos();
        proof {
            self.lemma_fits();
        }
        match m {
            EditorMessage::Keypress(key) => match key {
                Key::Up | Key::Down | Key::Left | Key::Right => self.move_cursor(key),
                Key::Tab => {
                    let spaces = vec![' ', ' ', ' ', ' '];
                    assert(spaces@ =~= indent());
                    self.insert_str_single_line(&spaces);
                },
                Key::Other => {},
            },
            EditorMessage::Char(c) => {
                if c == BACKSPACE {
                    self.backspace();
                } else if c == CARRIAGE_RETURN {
                    self.newline();
                } else if ' ' <= c && c <= '~' {
                    let one = vec![c];
                    assert(one@ =~= seq![c]);
                    self.insert_str_single_line(&one);
                }
            },
        }
        proof {
            self.lemma_fits();
            lemma_edited_valid(t0, start_pos, m);
        }
    }

    proof fn lemma_fits(&self)
        ensures
            fits(self.text()),
    {
        assert(self.lines@.len() == self.lines.len());
        assert forall|i: int| 0 <= i < self.text().len() implies #[trigger] self.text()[i].len()
            <= usize::MAX by {
            assert(self.lines@[i]@.len() == self.lines@[i].len());
        }
    }
}

} // verus!
