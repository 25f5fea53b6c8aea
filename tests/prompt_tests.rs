use benchide::buffer::{EditorMessage, Key};
use benchide::prompt::{split_tokens, Prompt, PromptUpdate};

fn chars(s: &str) -> Vec<char> {
    s.chars().collect()
}

fn submit(text: &str) -> (Option<PromptUpdate>, Prompt) {
    let mut p = Prompt::new();
    for c in text.chars() {
        assert!(p.update(EditorMessage::Char(c)).is_none());
    }
    let r = p.update(EditorMessage::Char('\r'));
    (r, p)
}

#[test]
fn open_with_path_emits_open_file() {
    let (r, p) = submit("open foo.py");
    match r {
        Some(PromptUpdate::OpenFile(path)) => assert_eq!(path, chars("foo.py")),
        other => panic!("unexpected {:?}", other),
    }
    assert!(p.text().is_empty());
    assert_eq!(p.cursor(), 0);
}

#[test]
fn save_alone_saves_the_active_pane() {
    let (r, _) = submit("save");
    assert!(matches!(r, Some(PromptUpdate::SaveActiveFile)));
}

#[test]
fn save_with_words_saves_as_joined_words() {
    let (r, _) = submit("save my new file.txt");
    match r {
        Some(PromptUpdate::SaveAs(path)) => assert_eq!(path, chars("my new file.txt")),
        other => panic!("unexpected {:?}", other),
    }
}

#[test]
fn open_without_path_is_invalid() {
    let (r, _) = submit("open");
    match r {
        Some(PromptUpdate::Status(m)) => assert_eq!(m, "Invalid command"),
        other => panic!("unexpected {:?}", other),
    }
}

#[test]
fn close_and_help() {
    assert!(matches!(submit("close").0, Some(PromptUpdate::CloseActiveFile)));
    assert!(matches!(submit("help").0, Some(PromptUpdate::OpenHelp)));
}

#[test]
fn unknown_and_empty_commands_are_invalid() {
    for text in ["frobnicate", "", " open x", "OPEN x"] {
        match submit(text).0 {
            Some(PromptUpdate::Status(m)) => assert_eq!(m, "Invalid command"),
            other => panic!("unexpected {:?} for {:?}", other, text),
        }
    }
}

#[test]
fn open_takes_only_the_second_token() {
    match submit("open a b").0 {
        Some(PromptUpdate::OpenFile(path)) => assert_eq!(path, chars("a")),
        other => panic!("unexpected {:?}", other),
    }
}

#[test]
fn prompt_edits_at_its_cursor() {
    let mut p = Prompt::new();
    for c in "ac".chars() {
        p.update(EditorMessage::Char(c));
    }
    p.update(EditorMessage::Keypress(Key::Left));
    p.update(EditorMessage::Char('b'));
    assert_eq!(p.text(), &chars("abc"));
    assert_eq!(p.cursor(), 2);
    p.update(EditorMessage::Keypress(Key::Right));
    p.update(EditorMessage::Keypress(Key::Right));
    assert_eq!(p.cursor(), 3);
    p.update(EditorMessage::Char('\x08'));
    assert_eq!(p.text(), &chars("ab"));
    p.update(EditorMessage::Keypress(Key::Left));
    p.update(EditorMessage::Keypress(Key::Left));
    p.update(EditorMessage::Keypress(Key::Left));
    assert_eq!(p.cursor(), 0);
    p.update(EditorMessage::Char('\x08'));
    assert_eq!(p.text(), &chars("ab"));
}

#[test]
fn tokens_split_at_every_space() {
    let t = split_tokens(&chars("a  b "));
    assert_eq!(t, vec![chars("a"), chars(""), chars("b"), chars("")]);
    assert_eq!(split_tokens(&chars("")), vec![chars("")]);
}
