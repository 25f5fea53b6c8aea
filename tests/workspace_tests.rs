use benchide::buffer::{EditorMessage, Key};
use benchide::editor::Editor;
use benchide::geometry::{Offset, Point, Rect};
use benchide::highlight::{Color, HighlightEvent};
use benchide::prompt::PromptUpdate;
use benchide::workspace::{App, Effect, FrameInput, Message};

fn idle(x: i64, y: i64) -> FrameInput {
    FrameInput {
        combo_held: false,
        events: Vec::new(),
        mouse_x: x,
        mouse_y: y,
        left_pressed: false,
        left_down: false,
        wheel: 0,
        drag: Offset::new(0, 0),
    }
}

fn run(app: &mut App, input: &FrameInput) -> Vec<Message> {
    let msgs = app.handle_input(input);
    for m in msgs.iter() {
        app.update(*m);
    }
    msgs
}

fn text_of(e: &Editor) -> Vec<String> {
    (0..e.line_count()).map(|i| e.line(i).iter().collect()).collect()
}

fn index_with_x(app: &App, x: i64) -> usize {
    (0..app.pane_count()).find(|&i| app.pane(i).window().x == x).unwrap()
}

#[test]
fn press_in_a_pane_routes_typing_only_there() {
    let mut app = App::default();
    let a = index_with_x(&app, 20);
    let b = index_with_x(&app, 500);
    let id_a = app.pane_id(a);
    let mut press = idle(100, 100);
    press.left_pressed = true;
    press.left_down = true;
    run(&mut app, &press);
    assert_eq!(app.focused(), Some(id_a));
    let mut typing = idle(100, 100);
    typing.events = vec![EditorMessage::Char('h'), EditorMessage::Char('i')];
    let msgs = run(&mut app, &typing);
    assert!(msgs.iter().all(|m| !matches!(m, Message::Edit(id, _) if *id != id_a)));
    let mut more = idle(100, 100);
    more.events = vec![EditorMessage::Keypress(Key::Left), EditorMessage::Char('!')];
    run(&mut app, &more);
    assert_eq!(text_of(app.pane(a)), vec!["h!i".to_string()]);
    assert_eq!(text_of(app.pane(b)), vec![String::new()]);
}

#[test]
fn press_outside_every_pane_clears_focus() {
    let mut app = App::default();
    let mut press = idle(100, 100);
    press.left_pressed = true;
    run(&mut app, &press);
    assert!(app.focused().is_some());
    let mut away = idle(5000, 5000);
    away.left_pressed = true;
    away.events = vec![EditorMessage::Char('z')];
    let msgs = run(&mut app, &away);
    assert_eq!(app.focused(), None);
    assert_eq!(msgs, vec![Message::Focus(None)]);
}

#[test]
fn combo_opens_prompt_and_it_takes_the_keys() {
    let mut app = App::default();
    let mut press = idle(100, 100);
    press.left_pressed = true;
    run(&mut app, &press);
    let mut combo = idle(100, 100);
    combo.combo_held = true;
    combo.events = vec![EditorMessage::Char('k')];
    let msgs = run(&mut app, &combo);
    assert_eq!(msgs, vec![Message::FocusPrompt(true)]);
    assert!(app.prompt_focused());
    let held = run(&mut app, &combo);
    assert_eq!(held, vec![Message::PromptEdit(EditorMessage::Char('k'))]);
    assert!(app.prompt_focused());
    let mut typing = idle(100, 100);
    typing.events = vec![EditorMessage::Char('s')];
    let msgs = run(&mut app, &typing);
    assert_eq!(msgs, vec![Message::KeyComboDone, Message::PromptEdit(EditorMessage::Char('s'))]);
    assert_eq!(app.prompt().text(), &vec!['k', 's']);
    for i in 0..app.pane_count() {
        assert_eq!(text_of(app.pane(i)), vec![String::new()]);
    }
}

#[test]
fn submitting_a_command_closes_the_prompt() {
    let mut app = App::default();
    app.update(Message::FocusPrompt(true));
    app.update(Message::KeyComboDone);
    assert!(app.prompt_focused());
    for c in "save".chars() {
        assert!(matches!(app.update(Message::PromptEdit(EditorMessage::Char(c))), Effect::Done));
    }
    let r = app.update(Message::PromptEdit(EditorMessage::Char('\r')));
    assert!(matches!(r, Effect::Command(PromptUpdate::SaveActiveFile)));
    assert!(!app.prompt_focused());
}

#[test]
fn latch_ignores_toggle_until_released() {
    let mut app = App::default();
    app.update(Message::FocusPrompt(true));
    assert!(app.prompt_focused());
    app.update(Message::FocusPrompt(false));
    assert!(app.prompt_focused());
    app.update(Message::KeyComboDone);
    app.update(Message::FocusPrompt(false));
    assert!(!app.prompt_focused());
}

#[test]
fn pan_moves_every_pane_without_a_drag_target() {
    let mut app = App::default();
    let mut drag = idle(5000, 5000);
    drag.left_down = true;
    drag.drag = Offset::new(10, -5);
    let msgs = run(&mut app, &drag);
    assert_eq!(msgs, vec![Message::Pan(Offset::new(10, -5))]);
    let a = index_with_x(&app, 30);
    let b = index_with_x(&app, 510);
    assert_eq!(app.pane(a).window(), Rect::new(30, 15, 400, 400));
    assert_eq!(app.pane(b).window(), Rect::new(510, 15, 400, 400));
}

#[test]
fn hovering_a_title_bar_arms_the_drag_target() {
    let mut app = App::default();
    let a = index_with_x(&app, 20);
    let id_a = app.pane_id(a);
    let msgs = run(&mut app, &idle(100, 10));
    assert_eq!(msgs, vec![Message::MoveTarget(Some(id_a))]);
    assert_eq!(app.move_target(), Some(id_a));
    let mut drag = idle(100, 10);
    drag.left_down = true;
    drag.drag = Offset::new(7, 3);
    run(&mut app, &drag);
    let b = index_with_x(&app, 500);
    assert_eq!(app.pane(a).window(), Rect::new(27, 23, 400, 400));
    assert_eq!(app.pane(b).window(), Rect::new(500, 20, 400, 400));
    let msgs = run(&mut app, &idle(100, 300));
    assert_eq!(msgs, vec![Message::MoveTarget(None)]);
    assert_eq!(app.move_target(), None);
}

#[test]
fn typing_is_held_back_while_dragging() {
    let mut app = App::default();
    let mut press = idle(100, 100);
    press.left_pressed = true;
    run(&mut app, &press);
    let mut drag = idle(100, 100);
    drag.left_down = true;
    drag.drag = Offset::new(1, 1);
    drag.events = vec![EditorMessage::Char('q')];
    let msgs = run(&mut app, &drag);
    assert_eq!(msgs, vec![Message::Pan(Offset::new(1, 1))]);
}

#[test]
fn wheel_scrolls_the_hovered_pane() {
    let mut app = App::default();
    let a = index_with_x(&app, 20);
    let id_a = app.pane_id(a);
    let mut wheel = idle(100, 100);
    wheel.wheel = 30;
    let msgs = run(&mut app, &wheel);
    assert!(msgs.contains(&Message::Scroll(id_a, Offset::new(0, 30))));
    assert_eq!(app.pane(a).offset(), Offset::new(0, 0));
}

#[test]
fn edits_that_change_text_ask_for_highlighting() {
    let mut app = App::default();
    let id = app.pane_id(0);
    assert!(matches!(app.update(Message::Edit(id, EditorMessage::Char('a'))), Effect::Rehighlight(x) if x == id));
    assert!(matches!(app.update(Message::Edit(id, EditorMessage::Keypress(Key::Left))), Effect::Done));
    let other = app.pane_id(1);
    let unknown = (1..).map(|k: u128| id.wrapping_add(k)).find(|x| *x != other).unwrap();
    assert!(matches!(app.update(Message::Edit(unknown, EditorMessage::Char('a'))), Effect::Done));
    assert_eq!(text_of(app.pane(0)), vec!["a".to_string()]);
    let red = Color::new(255, 0, 0, 255);
    app.set_highlights(id, Some(vec![HighlightEvent::StyleStart(Some(red)), HighlightEvent::Source { start: 0, end: 1 }]));
    assert_eq!(app.pane(0).glyph_color(Point::new(0, 0), app.theme().text), red);
    app.set_highlights(id, None);
    assert!(app.pane(0).colors().is_empty());
    assert_eq!(app.pane(0).glyph_color(Point::new(0, 0), app.theme().text), app.theme().text);
}

#[test]
fn closing_removes_the_focused_pane() {
    let mut app = App::default();
    let id = app.pane_id(1);
    app.update(Message::Focus(Some(id)));
    assert_eq!(app.close_focused(), Some(id));
    assert_eq!(app.pane_count(), 1);
    assert_eq!(app.focused(), None);
    assert_eq!(app.close_focused(), None);
}

#[test]
fn adding_a_pane_needs_a_new_identifier() {
    let mut app = App::default();
    let taken = app.pane_id(0);
    let e = Editor::new(Rect::new(0, 0, 10, 10), 16, String::from("x"));
    assert!(!app.add_pane(taken, e));
    let e = Editor::new(Rect::new(0, 0, 10, 10), 16, String::from("x"));
    let fresh = app.pane_id(0) ^ app.pane_id(1) ^ 1;
    let fresh = if fresh == app.pane_id(0) || fresh == app.pane_id(1) { 12345 } else { fresh };
    assert!(app.add_pane(fresh, e));
    assert_eq!(app.pane_count(), 3);
    let e = Editor::new(Rect::new(0, 0, 10, 10), 16, String::from("y"));
    let opened = app.open_pane(e);
    assert!(opened.is_some());
    assert_eq!(app.pane_count(), 4);
    assert_ne!(app.pane_id(0), app.pane_id(1));
}

#[test]
fn submitted_close_removes_the_focused_pane() {
    let mut app = App::default();
    let kept = app.pane_id(0);
    let gone = app.pane_id(1);
    app.update(Message::Focus(Some(gone)));
    app.update(Message::MoveTarget(Some(gone)));
    for c in "close".chars() {
        app.update(Message::PromptEdit(EditorMessage::Char(c)));
    }
    let r = app.update(Message::PromptEdit(EditorMessage::Char('\r')));
    assert!(matches!(r, Effect::Command(PromptUpdate::CloseActiveFile)));
    assert_eq!(app.pane_count(), 1);
    assert_eq!(app.pane_id(0), kept);
    assert_eq!(app.focused(), None);
    assert_eq!(app.move_target(), None);
}

#[test]
fn submitted_close_without_focus_keeps_every_pane() {
    let mut app = App::default();
    for c in "close".chars() {
        app.update(Message::PromptEdit(EditorMessage::Char(c)));
    }
    app.update(Message::PromptEdit(EditorMessage::Char('\r')));
    assert_eq!(app.pane_count(), 2);
}

#[test]
fn opening_into_an_empty_workspace_always_succeeds() {
    let mut app = App::default();
    for _ in 0..2 {
        let id = app.pane_id(0);
        app.update(Message::Focus(Some(id)));
        assert_eq!(app.close_focused(), Some(id));
    }
    assert_eq!(app.pane_count(), 0);
    let e = Editor::new(Rect::new(0, 0, 10, 10), 16, String::from("z"));
    let id = app.open_pane(e);
    assert!(id.is_some());
    assert_eq!(app.pane_id(0), id.unwrap());
}

#[test]
fn pressing_on_a_title_bar_arms_the_drag_target_at_once() {
    let mut app = App::default();
    let a = index_with_x(&app, 20);
    let id_a = app.pane_id(a);
    let mut press = idle(100, 10);
    press.left_pressed = true;
    press.left_down = true;
    let msgs = run(&mut app, &press);
    assert_eq!(msgs, vec![Message::Focus(Some(id_a)), Message::MoveTarget(Some(id_a))]);
    assert_eq!(app.move_target(), Some(id_a));
}
