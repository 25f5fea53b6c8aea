use benchide::geometry::Point;
use benchide::highlight::{build_spans, idx_to_point, lookup_color, Color, ColorSpan, HighlightEvent};
use benchide::theme::Theme;

fn chars(s: &str) -> Vec<char> {
    s.chars().collect()
}

#[test]
fn first_matching_span_wins() {
    let a = Color::new(1, 2, 3, 255);
    let b = Color::new(9, 9, 9, 255);
    let d = Color::new(0, 0, 0, 255);
    let spans = vec![
        ColorSpan { start: Point::new(0, 0), end: Point::new(0, 5), color: a },
        ColorSpan { start: Point::new(0, 2), end: Point::new(0, 3), color: b },
    ];
    assert_eq!(lookup_color(&spans, Point::new(0, 2), d), a);
    assert_eq!(lookup_color(&spans, Point::new(0, 5), d), d);
    assert_eq!(lookup_color(&spans, Point::new(1, 0), d), d);
}

#[test]
fn span_end_is_exclusive_and_rows_compare_first() {
    let a = Color::new(1, 1, 1, 255);
    let d = Color::new(0, 0, 0, 255);
    let spans = vec![ColorSpan { start: Point::new(0, 4), end: Point::new(2, 1), color: a }];
    assert_eq!(lookup_color(&spans, Point::new(1, 0), d), a);
    assert_eq!(lookup_color(&spans, Point::new(2, 0), d), a);
    assert_eq!(lookup_color(&spans, Point::new(2, 1), d), d);
    assert_eq!(lookup_color(&spans, Point::new(0, 3), d), d);
}

#[test]
fn byte_offsets_become_positions() {
    let code = chars("ab\ncd\n\nx");
    assert_eq!(idx_to_point(&code, 0), Point::new(0, 0));
    assert_eq!(idx_to_point(&code, 2), Point::new(0, 2));
    assert_eq!(idx_to_point(&code, 3), Point::new(1, 0));
    assert_eq!(idx_to_point(&code, 5), Point::new(1, 2));
    assert_eq!(idx_to_point(&code, 7), Point::new(3, 0));
    assert_eq!(idx_to_point(&code, 8), Point::new(3, 1));
    assert_eq!(idx_to_point(&code, 100), Point::new(3, 1));
}

#[test]
fn multibyte_characters_count_once() {
    let code = chars("é=1");
    assert_eq!(idx_to_point(&code, 2), Point::new(0, 1));
    assert_eq!(idx_to_point(&code, 1), Point::new(0, 0));
    assert_eq!(idx_to_point(&code, 4), Point::new(0, 3));
}

#[test]
fn events_become_spans_in_order() {
    let d = Color::new(0, 0, 0, 255);
    let k = Color::new(200, 0, 0, 255);
    let code = chars("let x\ny");
    let events = vec![
        HighlightEvent::StyleStart(Some(k)),
        HighlightEvent::Source { start: 0, end: 3 },
        HighlightEvent::StyleEnd,
        HighlightEvent::Source { start: 3, end: 7 },
        HighlightEvent::StyleStart(None),
        HighlightEvent::Source { start: 6, end: 7 },
    ];
    let spans = build_spans(&code, &events, d);
    assert_eq!(
        spans,
        vec![
            ColorSpan { start: Point::new(0, 0), end: Point::new(0, 3), color: k },
            ColorSpan { start: Point::new(0, 3), end: Point::new(1, 1), color: d },
            ColorSpan { start: Point::new(1, 0), end: Point::new(1, 1), color: d },
        ]
    );
}

#[test]
fn no_events_no_spans() {
    let spans = build_spans(&chars("abc"), &Vec::new(), Color::new(0, 0, 0, 0));
    assert!(spans.is_empty());
}

#[test]
fn hex_colours_split_into_bytes() {
    assert_eq!(Color::from_hex(0xcdd6f4), Color::new(0xcd, 0xd6, 0xf4, 255));
    let t = Theme::mocha();
    assert_eq!(t.text, Color::new(0xcd, 0xd6, 0xf4, 255));
    assert_eq!(t.base, Color::new(0x1e, 0x1e, 0x2e, 255));
    assert_eq!(t.crust, Color::new(0x11, 0x11, 0x1b, 255));
}
