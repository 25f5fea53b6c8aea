use benchide::buffer::{split_lines, EditorMessage, Key, TextBuffer};
use benchide::geometry::Point;

fn chars(s: &str) -> Vec<char> {
    s.chars().collect()
}

fn type_str(b: &mut TextBuffer, s: &str) {
    for c in s.chars() {
        b.apply(EditorMessage::Char(c));
    }
}

fn lines(b: &TextBuffer) -> Vec<String> {
    (0..b.line_count()).map(|i| b.line(i).iter().collect()).collect()
}

#[test]
fn new_buffer_has_one_empty_line() {
    let b = TextBuffer::new();
    assert_eq!(lines(&b), vec![String::new()]);
    assert_eq!(b.cursor(), Point::new(0, 0));
}

#[test]
fn newline_then_backspace_scenario() {
    let mut b = TextBuffer::new();
    type_str(&mut b, "hello");
    assert_eq!(b.cursor(), Point::new(0, 5));
    b.apply(EditorMessage::Char('\r'));
    assert_eq!(lines(&b), vec!["hello".to_string(), String::new()]);
    assert_eq!(b.cursor(), Point::new(1, 0));
    b.apply(EditorMessage::Char('\x08'));
    assert_eq!(lines(&b), vec!["hello".to_string()]);
    assert_eq!(b.cursor(), Point::new(0, 5));
}

#[test]
fn type_then_backspace_restores() {
    let mut b = TextBuffer::new();
    b.load(vec![chars("abc"), chars("de")]);
    b.apply(EditorMessage::Keypress(Key::Right));
    let before = lines(&b);
    let cursor = b.cursor();
    b.apply(EditorMessage::Char('x'));
    assert_eq!(lines(&b), vec!["axbc".to_string(), "de".to_string()]);
    assert_eq!(b.cursor(), Point::new(0, 2));
    b.apply(EditorMessage::Char('\x08'));
    assert_eq!(lines(&b), before);
    assert_eq!(b.cursor(), cursor);
}

#[test]
fn split_mid_line_then_join_restores() {
    let mut b = TextBuffer::new();
    b.load(vec![chars("abcdef")]);
    for _ in 0..3 {
        b.apply(EditorMessage::Keypress(Key::Right));
    }
    b.apply(EditorMessage::Char('\r'));
    assert_eq!(lines(&b), vec!["abc".to_string(), "def".to_string()]);
    assert_eq!(b.cursor(), Point::new(1, 0));
    b.apply(EditorMessage::Char('\x08'));
    assert_eq!(lines(&b), vec!["abcdef".to_string()]);
    assert_eq!(b.cursor(), Point::new(0, 3));
}

#[test]
fn vertical_moves_clamp_column() {
    let mut b = TextBuffer::new();
    b.load(vec![chars("a long line"), chars("ab"), chars(""), chars("another long one")]);
    for _ in 0..9 {
        b.apply(EditorMessage::Keypress(Key::Right));
    }
    assert_eq!(b.cursor(), Point::new(0, 9));
    b.apply(EditorMessage::Keypress(Key::Down));
    assert_eq!(b.cursor(), Point::new(1, 2));
    b.apply(EditorMessage::Keypress(Key::Down));
    assert_eq!(b.cursor(), Point::new(2, 0));
    b.apply(EditorMessage::Keypress(Key::Down));
    assert_eq!(b.cursor(), Point::new(3, 0));
    b.apply(EditorMessage::Keypress(Key::Down));
    assert_eq!(b.cursor(), Point::new(3, 0));
    b.apply(EditorMessage::Keypress(Key::Up));
    b.apply(EditorMessage::Keypress(Key::Up));
    b.apply(EditorMessage::Keypress(Key::Up));
    b.apply(EditorMessage::Keypress(Key::Up));
    assert_eq!(b.cursor(), Point::new(0, 0));
}

#[test]
fn left_and_right_stay_on_the_line() {
    let mut b = TextBuffer::new();
    b.load(vec![chars("ab"), chars("cd")]);
    b.apply(EditorMessage::Keypress(Key::Left));
    assert_eq!(b.cursor(), Point::new(0, 0));
    for _ in 0..5 {
        b.apply(EditorMessage::Keypress(Key::Right));
    }
    assert_eq!(b.cursor(), Point::new(0, 2));
}

#[test]
fn tab_inserts_four_spaces() {
    let mut b = TextBuffer::new();
    type_str(&mut b, "ab");
    b.apply(EditorMessage::Keypress(Key::Left));
    b.apply(EditorMessage::Keypress(Key::Tab));
    assert_eq!(lines(&b), vec!["a    b".to_string()]);
    assert_eq!(b.cursor(), Point::new(0, 5));
}

#[test]
fn control_tab_and_non_ascii_chars_are_dropped() {
    let mut b = TextBuffer::new();
    type_str(&mut b, "a\tb\u{1}é~");
    assert_eq!(lines(&b), vec!["ab~".to_string()]);
    assert_eq!(b.cursor(), Point::new(0, 3));
}

#[test]
fn backspace_at_buffer_start_does_nothing() {
    let mut b = TextBuffer::new();
    b.load(vec![chars("xy")]);
    b.apply(EditorMessage::Char('\x08'));
    assert_eq!(lines(&b), vec!["xy".to_string()]);
    assert_eq!(b.cursor(), Point::new(0, 0));
}

#[test]
fn backspace_joins_keeping_the_tail() {
    let mut b = TextBuffer::new();
    b.load(vec![chars("one"), chars("two"), chars("three")]);
    b.apply(EditorMessage::Keypress(Key::Down));
    b.apply(EditorMessage::Char('\x08'));
    assert_eq!(lines(&b), vec!["onetwo".to_string(), "three".to_string()]);
    assert_eq!(b.cursor(), Point::new(0, 3));
}

#[test]
fn loading_nothing_leaves_one_line() {
    let mut b = TextBuffer::new();
    b.load(Vec::new());
    assert_eq!(lines(&b), vec![String::new()]);
}

#[test]
fn code_joins_lines_with_newlines() {
    let mut b = TextBuffer::new();
    b.load(vec![chars("a"), chars(""), chars("bc")]);
    assert_eq!(b.code(), chars("a\n\nbc"));
}

#[test]
fn text_splits_into_lines_like_a_file() {
    assert_eq!(split_lines(&chars("a\r\nb\n")), vec![chars("a"), chars("b")]);
    assert_eq!(split_lines(&chars("")), Vec::<Vec<char>>::new());
    assert_eq!(split_lines(&chars("\n\n")), vec![chars(""), chars("")]);
    assert_eq!(split_lines(&chars("x\r")), vec![chars("x\r")]);
    assert_eq!(split_lines(&chars("one\ntwo")), vec![chars("one"), chars("two")]);
}

#[test]
fn cursor_stays_inside_the_text_after_mixed_edits() {
    let mut b = TextBuffer::new();
    b.load(vec![chars("first line"), chars("x"), chars("third")]);
    let script = [
        EditorMessage::Keypress(Key::Down),
        EditorMessage::Keypress(Key::Right),
        EditorMessage::Keypress(Key::Right),
        EditorMessage::Char('\x08'),
        EditorMessage::Char('\x08'),
        EditorMessage::Char('\x08'),
        EditorMessage::Keypress(Key::Down),
        EditorMessage::Keypress(Key::Down),
        EditorMessage::Char('\r'),
        EditorMessage::Keypress(Key::Up),
        EditorMessage::Keypress(Key::Tab),
        EditorMessage::Keypress(Key::Down),
    ];
    for m in script {
        b.apply(m);
        let p = b.cursor();
        assert!(p.row() < b.line_count());
        assert!(p.column() <= b.line(p.row()).len());
    }
    assert_eq!(lines(&b), vec!["first lin".to_string(), "    third".to_string(), String::new()]);
    assert_eq!(b.cursor(), Point::new(2, 0));
}
