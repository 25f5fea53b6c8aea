use vstd::prelude::*;
use crate::geometry::{Point, point_le, point_lt};

verus! {

/// An RGBA colour.
#[derive(Debug, Clone, Copy, PartialEq, Eq, Structural)]
pub struct Color {
    pub r: u8,
    pub g: u8,
    pub b: u8,
    pub a: u8,
}

impl Color {
    pub fn new(r: u8, g: u8, b: u8, a: u8) -> (c: Color)
        ensures
            c == (Color { r, g, b, a }),
    {
        Color { r, g, b, a }
    }

    /// An opaque colour from `0xRRGGBB`; the top byte is ignored.
    pub fn from_hex(hex: u32) -> (c: Color)
        ensures
            c.r == (hex / 0x10000) % 0x100,
            c.g == (hex / 0x100) % 0x100,
            c.b == hex % 0x100,
            c.a == 255,
    {
        Color {
            r: ((hex / 0x10000) % 0x100) as u8,
            g: ((hex / 0x100) % 0x100) as u8,
            b: (hex % 0x100) as u8,
            a: 255,
        }
    }
}

/// What a highlighter reports while it walks a text. A style start carries
/// the colour that the style maps to, if it has one; a source range is a pair
/// of byte offsets into the UTF-8 text.
#[derive(Debug, Clone, Copy, PartialEq, Eq, Structural)]
pub enum HighlightEvent {
    StyleStart(Option<Color>),
    Source { start: usize, end: usize },
    StyleEnd,
}

/// A half-open range of positions drawn in one colour.
#[derive(Debug, Clone, Copy, PartialEq, Eq, Structural)]
pub struct ColorSpan {
    pub start: Point,
    pub end: Point,
    pub color: Color,
}

/// Number of bytes that the character takes in UTF-8.
pub open spec fn utf8_len(c: char) -> nat {
    if (c as u32) < 0x80 {
        1
    } else if (c as u32) < 0x800 {
        2
    } else if (c as u32) < 0x10000 {
        3
    } else {
        4
    }
}

/// How many leading characters of `s` end at or before byte offset `idx`.
pub open spec fn covered(s: Seq<char>, idx: int) -> nat
    decreases s.len(),
{
    if s.len() == 0 || utf8_len(s[0]) > idx {
        0
    } else {
        1 + covered(s.drop_first(), idx - utf8_len(s[0]))
    }
}

/// (row, column) reached after the first `n` characters of `s`: a newline
/// starts the next row at column zero, any other character moves one column.
pub open spec fn walk(s: Seq<char>, n: int) -> (nat, nat)
    decreases n,
{
    if n <= 0 {
        (0, 0)
    } else {
        let (r, c) = walk(s, n - 1);
        if s[n - 1] == '\n' {
            (r + 1, 0)
        } else {
            (r, c + 1)
        }
    }
}

/// The position of byte offset `idx` in the text `s`.
pub open spec fn point_at(s: Seq<char>, idx: int) -> Point {
    let (r, c) = walk(s, covered(s, idx) as int);
    Point { row: r as usize, column: c as usize }
}

/// The active colour and the spans after the given events, in order: each
/// source range becomes one span in the colour active when it came.
pub open spec fn overlay(code: Seq<char>, events: Seq<HighlightEvent>, default: Color) -> (Color, Seq<ColorSpan>)
    decreases events.len(),
{
    if events.len() == 0 {
        (default, Seq::empty())
    } else {
        let (color, spans) = overlay(code, events.drop_last(), default);
        match events.last() {
            HighlightEvent::StyleStart(Some(c)) => (c, spans),
            HighlightEvent::StyleStart(None) => (color, spans),
            HighlightEvent::Source { start, end } => (
                color,
                spans.push(
                    ColorSpan {
                        start: point_at(code, start as int),
                        end: point_at(code, end as int),
                        color,
                    },
                ),
            ),
            HighlightEvent::StyleEnd => (default, spans),
        }
    }
}

pub open spec fn spans_of(code: Seq<char>, events: Seq<HighlightEvent>, default: Color) -> Seq<ColorSpan> {
    overlay(code, events, default).1
}

pub open spec fn span_covers(s: ColorSpan, p: Point) -> bool {
    point_le(s.start, p) && point_lt(p, s.end)
}

/// The colour of the first span, in order, that covers `p`; `default` if none.
pub open spec fn color_at(spans: Seq<ColorSpan>, p: Point, default: Color) -> Color
    decreases spans.len(),
{
    if spans.len() == 0 {
        default
    } else if span_covers(spans[0], p) {
        spans[0].color
    } else {
        color_at(spans.drop_first(), p, default)
    }
}

proof fn lemma_walk_bound(s: Seq<char>, n: int)
    requires
        0 <= n,
    ensures
        walk(s, n).0 <= n,
        walk(s, n).1 <= n,
    decreases n,
{
    if n > 0 {
        lemma_walk_bound(s, n - 1);
    }
}

fn char_width(c: char) -> (r: usize)
    ensures
        r == utf8_len(c),
{
    if (c as u32) < 0x80 {
        1
    } else if (c as u32) < 0x800 {
        2
    } else if (c as u32) < 0x10000 {
        3
    } else {
        4
    }
}

/// The position of byte offset `idx` in `code`: the number of newlines before
/// it and the number of characters since the last of them. An offset past the
/// end or inside a character counts the characters that end before it.
pub fn idx_to_point(code: &Vec<char>, idx: usize) -> (r: Point)
    ensures
        r == point_at(code@, idx as int),
{
    let ghost s = code@;
    let mut i: usize = 0;
    let mut used: usize = 0;
    let mut row: usize = 0;
    let mut column: usize = 0;
    assert(s.skip(0) =~= s);
    while i < code.len() && char_width(code[i]) <= idx - used
        invariant
            0 <= i <= s.len(),
            s == code@,
            used <= idx,
            (row as nat, column as nat) == walk(s, i as int),
            row <= i,
            column <= i,
            covered(s, idx as int) == i + covered(s.skip(i as int), idx - used),
        decreases s.len() - i,
    {
        let w = char_width(code[i]);
        assert(s.skip(i as int).drop_first() =~= s.skip(i + 1));
        if code[i] == '\n' {
            row = row + 1;
            column = 0;
        } else {
            column = column + 1;
        }
        used = used + w;
        i = i + 1;
    }
    proof {
        lemma_walk_bound(s, i as int);
    }
    Point::new(row, column)
}

/// The spans for a highlighter's events over `code`, one per source range,
/// in the order the events came.
pub fn build_spans(code: &Vec<char>, events: &Vec<HighlightEvent>, default: Color) -> (r: Vec<ColorSpan>)
    ensures
        r@ == spans_of(code@, events@, default),
{
    let mut spans: Vec<ColorSpan> = Vec::new();
    let mut color = default;
    let mut i: usize = 0;
    assert(events@.take(0) =~= Seq::<HighlightEvent>::empty());
    while i < events.len()
        invariant
            0 <= i <= events@.len(),
            (color, spans@) == overlay(code@, events@.take(i as int), default),
        decreases events@.len() - i,
    {
        assert(events@.take(i + 1).drop_last() =~= events@.take(i as int));
        assert(events@.take(i + 1).last() == events@[i as int]);
        match events[i] {
            HighlightEvent::StyleStart(style) => {
                if let Some(c) = style {
                    color = c;
                }
            },
            HighlightEvent::Source { start, end } => {
                let s = idx_to_point(code, start);
                let e = idx_to_point(code, end);
                spans.push(ColorSpan { start: s, end: e, color });
            },
            HighlightEvent::StyleEnd => {
                color = default;
            },
        }
        i = i + 1;
    }
    assert(events@.take(i as int) =~= events@);
    spans
}

/// The colour in which the glyph at `p` is drawn: that of the first span
/// covering it, else `default`.
pub fn lookup_color(spans: &Vec<ColorSpan>, p: Point, default: Color) -> (r: Color)
    ensures
        r == color_at(spans@, p, default),
{
    let mut i: usize = 0;
    assert(spans@.skip(0) =~= spans@);
    while i < spans.len()
        invariant
            0 <= i <= spans@.len(),
            color_at(spans@, p, default) == color_at(spans@.skip(i as int), p, default),
        decreases spans@.len() - i,
    {
        let s = spans[i];
        if s.start.le(&p) && p.lt(&s.end) {
            return s.color;
        }
        assert(spans@.skip(i as int).drop_first() =~= spans@.skip(i + 1));
        i = i + 1;
    }
    default
}

/// First match decides: a span that covers `p` gives its colour whenever no
/// earlier span covers `p`, whatever later spans, nested or not, say.
pub proof fn lemma_first_covering_span_wins(spans: Seq<ColorSpan>, p: Point, default: Color, i: int)
    requires
        0 <= i < spans.len(),
        span_covers(spans[i], p),
        forall|j: int| 0 <= j < i ==> !span_covers(#[trigger] spans[j], p),
    ensures
        color_at(spans, p, default) == spans[i].color,
    decreases i,
{
    if i > 0 {
        let rest = spans.drop_first();
        assert(!span_covers(spans[0], p));
        assert forall|j: int| 0 <= j < i - 1 implies !span_covers(#[trigger] rest[j], p) by {
            assert(rest[j] == spans[j + 1]);
        }
        lemma_first_covering_span_wins(rest, p, default, i - 1);
    }
}

/// No span covers `p`: the glyph keeps the default colour.
pub proof fn lemma_uncovered_is_default(spans: Seq<ColorSpan>, p: Point, default: Color)
    requires
        forall|j: int| 0 <= j < spans.len() ==> !span_covers(#[trigger] spans[j], p),
    ensures
        color_at(spans, p, default) == default,
    decreases spans.len(),
{
    if spans.len() > 0 {
        let rest = spans.drop_first();
        assert forall|j: int| 0 <= j < rest.len() implies !span_covers(#[trigger] rest[j], p) by {
            assert(rest[j] == spans[j + 1]);
        }
        lemma_uncovered_is_default(rest, p, default);
    }
}

} // verus!
