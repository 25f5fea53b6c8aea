use vstd::prelude::*;
use crate::buffer::{EditorMessage, Key, TextBuffer, edited, lines_of, printable, split_lines, valid, BACKSPACE, CARRIAGE_RETURN, joined};
use crate::geometry::{Offset, Point, Rect, add_saturating, sat_add};
use crate::highlight::{Color, ColorSpan, HighlightEvent, build_spans, color_at, lookup_color, spans_of};

verus! {

/// `v` saturated into the range of `i64`.
pub open spec fn saturate(v: int) -> int {
    if v > i64::MAX {
        i64::MAX as int
    } else if v < i64::MIN {
        i64::MIN as int
    } else {
        v
    }
}

/// The largest vertical offset: the content height beyond the window, or zero.
pub open spec fn max_scroll(line_count: int, line_height: int, window_height: int) -> int {
    let over = line_count * line_height - window_height;
    if over > 0 {
        over
    } else {
        0
    }
}

/// `y` clamped to `[0, max_scroll]`, the upper bound saturated into `i64`.
pub open spec fn clamp_scroll(y: int, line_count: int, line_height: int, window_height: int) -> int {
    let top = saturate(max_scroll(line_count, line_height, window_height));
    if y > top {
        top
    } else if y < 0 {
        0
    } else {
        y
    }
}

/// The vertical offset after following a cursor on `row`: scrolled up to its
/// top edge when it is above the window, scrolled down so its bottom edge is
/// inside the window when it is below.
pub open spec fn followed(y: int, row: int, line_height: int, window_height: int) -> int {
    let effective = row * line_height - y;
    let y1 = if effective < 0 {
        y + effective
    } else {
        y
    };
    if effective > window_height {
        y1 + effective - (window_height - line_height)
    } else {
        y1
    }
}

/// After a scroll, and after the cursor-follow that ends every update, the
/// vertical offset lies in `[0, max(0, content height - window height)]`:
/// both end by clamping it there.
pub proof fn lemma_scroll_in_bounds(y: int, line_count: int, line_height: int, window_height: int)
    ensures
        0 <= clamp_scroll(y, line_count, line_height, window_height),
        clamp_scroll(y, line_count, line_height, window_height) <= max_scroll(
            line_count,
            line_height,
            window_height,
        ),
{
}

/// Following the cursor keeps the vertical offset in `[0, max(0, content
/// height - window height)]` when it was there for the current line count,
/// so the clamp after it acts only when an edit has lowered that bound by
/// removing a line.
pub proof fn lemma_follow_in_bounds(y: int, row: int, line_count: int, line_height: int, window_height: int)
    requires
        0 <= y <= max_scroll(line_count, line_height, window_height),
        0 <= row < line_count,
        0 <= line_height,
        0 <= window_height,
    ensures
        0 <= followed(y, row, line_height, window_height),
        followed(y, row, line_height, window_height) <= max_scroll(line_count, line_height, window_height),
{
    assert((row + 1) * line_height <= line_count * line_height) by (nonlinear_arith)
        requires
            row + 1 <= line_count,
            0 <= line_height,
    ;
    assert(row * line_height + line_height == (row + 1) * line_height) by (nonlinear_arith);
}

/// Messages that change the text, after which colours are derived anew.
pub open spec fn edits_content(m: EditorMessage) -> bool {
    match m {
        EditorMessage::Keypress(k) => k == Key::Tab,
        EditorMessage::Char(c) => c == BACKSPACE || c == CARRIAGE_RETURN || printable(c),
    }
}

/// One pane: a text buffer with its colours, scroll offset, window and title.
pub struct Editor {
    buffer: TextBuffer,
    colors: Vec<ColorSpan>,
    window: Rect,
    font_size: u16,
    offset: Offset,
    filename: String,
}

/// `b` is `a` after `scroll(delta)`.
pub open spec fn scrolled(a: Editor, b: Editor, delta: Offset) -> bool {
    &&& b.wf()
    &&& b.scroll_offset().y == clamp_scroll(
        a.scroll_offset().y + delta.y,
        a.text().len() as int,
        a.line_height() as int,
        a.frame().h as int,
    )
    &&& b.scroll_offset().x == sat_add(a.scroll_offset().x as int, delta.x as int)
    &&& b.text() == a.text()
    &&& b.pos() == a.pos()
    &&& b.spans() == a.spans()
    &&& b.frame() == a.frame()
    &&& b.line_height() == a.line_height()
    &&& b.title() == a.title()
}

/// `b` is `a` after `update(m)`.
pub open spec fn updated(a: Editor, b: Editor, m: EditorMessage) -> bool {
    &&& b.wf()
    &&& (b.text(), b.pos()) == edited(a.text(), a.pos(), m)
    &&& b.scroll_offset().y == clamp_scroll(
        saturate(followed(a.scroll_offset().y as int, b.pos().row as int, a.line_height() as int, a.frame().h as int)),
        b.text().len() as int,
        a.line_height() as int,
        a.frame().h as int,
    )
    &&& b.scroll_offset().x == a.scroll_offset().x
    &&& b.spans() == a.spans()
    &&& b.frame() == a.frame()
    &&& b.line_height() == a.line_height()
    &&& b.title() == a.title()
}

/// `b` is `a` with its window moved by `delta`.
pub open spec fn moved_by(a: Editor, b: Editor, delta: Offset) -> bool {
    &&& b.wf()
    &&& b.frame().x == sat_add(a.frame().x as int, delta.x as int)
    &&& b.frame().y == sat_add(a.frame().y as int, delta.y as int)
    &&& b.frame().w == a.frame().w
    &&& b.frame().h == a.frame().h
    &&& b.text() == a.text()
    &&& b.pos() == a.pos()
    &&& b.spans() == a.spans()
    &&& b.scroll_offset() == a.scroll_offset()
    &&& b.line_height() == a.line_height()
    &&& b.title() == a.title()
}

impl Editor {
    pub open spec fn wf(&self) -> bool {
        valid(self.text(), self.pos())
    }

    pub closed spec fn text(&self) -> Seq<Seq<char>> {
        self.buffer.text()
    }

    pub closed spec fn pos(&self) -> Point {
        self.buffer.pos()
    }

    pub closed spec fn spans(&self) -> Seq<ColorSpan> {
        self.colors@
    }

    pub closed spec fn scroll_offset(&self) -> Offset {
        self.offset
    }

    pub closed spec fn line_height(&self) -> u16 {
        self.font_size
    }

    pub closed spec fn title(&self) -> Seq<char> {
        self.filename@
    }

    /// The window rectangle on screen.
    pub closed spec fn frame(&self) -> Rect {
        self.window
    }

    /// An empty pane: one empty line, no colours, no scroll.
    pub fn new(window: Rect, font_size: u16, filename: String) -> (e: Editor)
        ensures
            e.wf(),
            e.text() == seq![Seq::<char>::empty()],
            e.pos() == (Point { row: 0, column: 0 }),
            e.spans() == Seq::<ColorSpan>::empty(),
            e.frame() == window,
            e.line_height() == font_size,
            e.scroll_offset() == (Offset { x: 0, y: 0 }),
            e.title() == filename@,
    {
        Editor {
            buffer: TextBuffer::new(),
            colors: Vec::new(),
            window,
            font_size,
            offset: Offset::new(0, 0),
            filename,
        }
    }

    /// Replaces the text with `lines` (one empty line if there are none), the
    /// cursor at the start.
    pub fn load_lines(&mut self, lines: Vec<Vec<char>>)
        ensures
            final(self).wf(),
            final(self).pos() == (Point { row: 0, column: 0 }),
            lines@.len() > 0 ==> final(self).text() == Seq::new(lines@.len(), |i: int| lines@[i]@),
            lines@.len() == 0 ==> final(self).text() == seq![Seq::<char>::empty()],
            final(self).spans() == old(self).spans(),
            final(self).frame() == old(self).frame(),
            final(self).line_height() == old(self).line_height(),
            final(self).scroll_offset() == old(self).scroll_offset(),
            final(self).title() == old(self).title(),
    {
        self.buffer.load(lines);
    }

    /// Replaces the text with the lines of `text` (one empty line if it has
    /// none), the cursor at the start.
    pub fn load_string(&mut self, text: Vec<char>)
        ensures
            final(self).wf(),
            final(self).pos() == (Point { row: 0, column: 0 }),
            lines_of(text@).len() > 0 ==> final(self).text() == lines_of(text@),
            lines_of(text@).len() == 0 ==> final(self).text() == seq![Seq::<char>::empty()],
            final(self).spans() == old(self).spans(),
            final(self).frame() == old(self).frame(),
            final(self).line_height() == old(self).line_height(),
            final(self).scroll_offset() == old(self).scroll_offset(),
            final(self).title() == old(self).title(),
    {
        let lines = split_lines(&text);
        self.buffer.load(lines);
    }

    /// Adds `delta` to the offset: the vertical part is clamped to
    /// `[0, max(0, line count * line height - window height)]`, the horizontal
    /// part only saturates.
    pub fn scroll(&mut self, delta: Offset)
        requires
            old(self).wf(),
        ensures
            scrolled(*old(self), *final(self), delta),
    {
        let y = self.clamped(self.offset.y as i128 + delta.y as i128);
        self.offset = Offset::new(add_saturating(self.offset.x, delta.x), y);
    }

    /// `y` clamped to `[0, max(0, line count * line height - window
    /// height)]`.
    fn clamped(&self, y: i128) -> (r: i64)
        requires
            self.wf(),
        ensures
            r == clamp_scroll(y as int, self.text().len() as int, self.line_height() as int, self.frame().h as int),
    {
        let count = self.buffer.line_count();
        let fs = self.font_size;
        proof {
            assert(count as int * fs as int <= 0x1_0000_0000_0000_0000 * 0x1_0000) by (nonlinear_arith)
                requires
                    count < 0x1_0000_0000_0000_0000,
                    fs < 0x1_0000,
            ;
        }
        let over = count as i128 * fs as i128 - self.window.h as i128;
        let mut top: i128 = if over > 0 {
            over
        } else {
            0
        };
        if top > i64::MAX as i128 {
            top = i64::MAX as i128;
        }
        let mut v = y;
        if v > top {
            v = top;
        }
        if v < 0 {
            v = 0;
        }
        v as i64
    }

    /// Scrolls just enough to keep the cursor's line in the window, then
    /// clamps the offset to the content as `scroll` does.
    fn follow_cursor(&mut self)
        requires
            old(self).wf(),
        ensures
            final(self).wf(),
            final(self).scroll_offset().y == clamp_scroll(
                saturate(
                    followed(
                        old(self).scroll_offset().y as int,
                        old(self).pos().row as int,
                        old(self).line_height() as int,
                        old(self).frame().h as int,
                    ),
                ),
                old(self).text().len() as int,
                old(self).line_height() as int,
                old(self).frame().h as int,
            ),
            final(self).scroll_offset().x == old(self).scroll_offset().x,
            final(self).text() == old(self).text(),
            final(self).pos() == old(self).pos(),
            final(self).spans() == old(self).spans(),
            final(self).frame() == old(self).frame(),
            final(self).line_height() == old(self).line_height(),
            final(self).title() == old(self).title(),
    {
        let row = self.buffer.cursor().row;
        let fs = self.font_size;
        proof {
            assert(row as int * fs as int <= 0x1_0000_0000_0000_0000 * 0x1_0000) by (nonlinear_arith)
                requires
                    row < 0x1_0000_0000_0000_0000,
                    fs < 0x1_0000,
            ;
        }
        let h = self.window.h as i128;
        let y0 = self.offset.y as i128;
        let effective = row as i128 * fs as i128 - y0;
        let mut y = y0;
        if effective < 0 {
            y = y + effective;
        }
        if effective > h {
            y = y + effective - (h - fs as i128);
        }
        if y > i64::MAX as i128 {
            y = i64::MAX as i128;
        } else if y < i64::MIN as i128 {
            y = i64::MIN as i128;
        }
        let y = self.clamped(y);
        self.offset = Offset::new(self.offset.x, y);
    }

    /// Applies one message to the text, then scrolls to keep the cursor in
    /// view. Returns whether the message was of a kind that changes the text,
    /// after which the colours are to be derived anew.
    pub fn update(&mut self, m: EditorMessage) -> (changed: bool)
        requires
            old(self).wf(),
        ensures
            changed == edits_content(m),
            updated(*old(self), *final(self), m),
    {
        self.buffer.apply(m);
        self.follow_cursor();
        match m {
            EditorMessage::Keypress(k) => k == Key::Tab,
            EditorMessage::Char(c) => c == BACKSPACE || c == CARRIAGE_RETURN || (' ' <= c && c <= '~'),
        }
    }

    /// Replaces the colours with those derived from a highlighter's events
    /// over the current text; with no events (the highlighter failed) there
    /// are none, and the text is drawn in the default colour.
    pub fn set_highlights(&mut self, events: Option<Vec<HighlightEvent>>, default: Color)
        requires
            old(self).wf(),
        ensures
            final(self).wf(),
            final(self).spans() == match events {
                Some(e) => spans_of(joined(old(self).text()), e@, default),
                None => Seq::<ColorSpan>::empty(),
            },
            final(self).text() == old(self).text(),
            final(self).pos() == old(self).pos(),
            final(self).scroll_offset() == old(self).scroll_offset(),
            final(self).frame() == old(self).frame(),
            final(self).line_height() == old(self).line_height(),
            final(self).title() == old(self).title(),
    {
        match events {
            Some(e) => {
                let code = self.buffer.code();
                self.colors = build_spans(&code, &e, default);
            },
            None => {
                self.colors = Vec::new();
            },
        }
    }

    /// The whole text with lines joined by newlines, as a highlighter or a
    /// file receives it.
    pub fn code(&self) -> (r: Vec<char>)
        ensures
            r@ == joined(self.text()),
    {
        self.buffer.code()
    }

    /// The colour of the glyph at `p`.
    pub fn glyph_color(&self, p: Point, default: Color) -> (r: Color)
        ensures
            r == color_at(self.spans(), p, default),
    {
        lookup_color(&self.colors, p, default)
    }

    /// The title bar: as wide as the window, one line plus eight pixels high,
    /// directly above it.
    pub fn titlebar(&self) -> (r: Rect)
        ensures
            r.x == self.frame().x,
            r.y == sat_add(self.frame().y as int, -(self.line_height() + 8)),
            r.w == self.frame().w,
            r.h == self.line_height() + 8,
    {
        let h = self.font_size as i64 + 8;
        Rect::new(self.window.x, add_saturating(self.window.y, -h), self.window.w, h)
    }

    pub fn window(&self) -> (r: Rect)
        ensures
            r == self.frame(),
    {
        self.window
    }

    /// Moves the window by `delta`, coordinates saturating.
    pub fn move_window(&mut self, delta: Offset)
        requires
            old(self).wf(),
        ensures
            moved_by(*old(self), *final(self), delta),
    {
        self.window = self.window.offset(delta);
    }

    pub fn line_count(&self) -> (r: usize)
        ensures
            r == self.text().len(),
    {
        self.buffer.line_count()
    }

    pub fn line(&self, i: usize) -> (r: &Vec<char>)
        requires
            i < self.text().len(),
        ensures
            r@ == self.text()[i as int],
    {
        self.buffer.line(i)
    }

    pub fn cursor(&self) -> (r: Point)
        ensures
            r == self.pos(),
    {
        self.buffer.cursor()
    }

    pub fn offset(&self) -> (r: Offset)
        ensures
            r == self.scroll_offset(),
    {
        self.offset
    }

    pub fn font_size(&self) -> (r: u16)
        ensures
            r == self.line_height(),
    {
        self.font_size
    }

    pub fn filename(&self) -> (r: &String)
        ensures
            r@ == self.title(),
    {
        &self.filename
    }

    pub fn colors(&self) -> (r: &Vec<ColorSpan>)
        ensures
            r@ == self.spans(),
    {
        &self.colors
    }
}

} // verus!
