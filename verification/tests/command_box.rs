use polysynth::command::{AppCommand, Arg};
use polysynth::command_box::{CommandBox, HistoryType, HISTORY_LIMIT};
use polysynth::input::{KeyCode, KeyInput, KeyKind, Modifiers};

fn press(code: KeyCode) -> KeyInput {
    KeyInput { code, modifiers: Modifiers::Plain, kind: KeyKind::Press }
}

fn type_text(b: &mut CommandBox, text: &str) {
    for c in text.chars() {
        assert!(!b.handle_key(press(KeyCode::Char(c))));
    }
}

fn suggest(b: &mut CommandBox) -> String {
    b.update_autocomplete();
    b.hint()
}

fn completing() -> CommandBox {
    let mut b = CommandBox::new();
    b.set_autocomplete(AppCommand::list_commands());
    b
}

#[test]
fn new_command_line_is_empty() {
    let mut b = CommandBox::new();
    assert_eq!(b.line(), "");
    assert_eq!(b.cursor(), 0);
    assert_eq!(b.history_len(), 0);
    assert_eq!(b.hint(), "");
    assert_eq!(b.get_command(), None);
}

#[test]
fn characters_go_in_at_the_cursor() {
    let mut b = CommandBox::new();
    type_text(&mut b, "pay");
    assert_eq!(b.cursor(), 3);
    b.handle_key(press(KeyCode::Left));
    b.handle_key(press(KeyCode::Left));
    type_text(&mut b, "l");
    assert_eq!(b.line(), "play");
    assert_eq!(b.cursor(), 2);
    b.handle_key(press(KeyCode::Right));
    assert_eq!(b.cursor(), 3);
}

#[test]
fn cursor_stops_at_the_left_end() {
    let mut b = CommandBox::new();
    type_text(&mut b, "a");
    for _ in 0..3 {
        b.handle_key(press(KeyCode::Left));
    }
    assert_eq!(b.cursor(), 0);
    type_text(&mut b, "b");
    assert_eq!(b.line(), "ba");
}

#[test]
fn backspace_and_delete() {
    let mut b = CommandBox::new();
    type_text(&mut b, "abcd");
    b.handle_key(press(KeyCode::Backspace));
    assert_eq!(b.line(), "abc");
    assert_eq!(b.cursor(), 3);
    b.handle_key(press(KeyCode::Delete));
    assert_eq!(b.line(), "abc");
    b.handle_key(press(KeyCode::Left));
    b.handle_key(press(KeyCode::Left));
    b.handle_key(press(KeyCode::Delete));
    assert_eq!(b.line(), "ac");
    assert_eq!(b.cursor(), 1);
    b.handle_key(press(KeyCode::Backspace));
    assert_eq!(b.line(), "c");
    assert_eq!(b.cursor(), 0);
    b.handle_key(press(KeyCode::Backspace));
    assert_eq!(b.line(), "c");
}

#[test]
fn escape_empties_the_line() {
    let mut b = CommandBox::new();
    type_text(&mut b, "load");
    b.handle_key(press(KeyCode::Esc));
    assert_eq!(b.line(), "");
    assert_eq!(b.cursor(), 0);
}

#[test]
fn only_presses_count_and_modifiers_do_not_matter() {
    let mut b = CommandBox::new();
    for kind in [KeyKind::Release, KeyKind::Repeat] {
        b.handle_key(KeyInput { code: KeyCode::Char('x'), modifiers: Modifiers::Plain, kind });
        b.handle_key(KeyInput { code: KeyCode::Enter, modifiers: Modifiers::Plain, kind });
    }
    assert_eq!(b.line(), "");
    assert_eq!(b.history_len(), 0);
    b.handle_key(KeyInput {
        code: KeyCode::Char('x'),
        modifiers: Modifiers::Control,
        kind: KeyKind::Press,
    });
    assert_eq!(b.line(), "x");
    b.handle_key(press(KeyCode::Up));
    b.handle_key(press(KeyCode::Other));
    assert_eq!(b.line(), "x");
}

#[test]
fn enter_echoes_and_makes_the_line_ready() {
    let mut b = CommandBox::new();
    type_text(&mut b, "play");
    assert_eq!(b.get_command(), None);
    b.handle_key(press(KeyCode::Enter));
    assert_eq!(b.history_len(), 1);
    assert_eq!(b.history_entry(0), (HistoryType::Echo, &"play".to_string()));
    assert_eq!(b.line(), "play");
    assert_eq!(b.get_command(), Some("play".to_string()));
    assert_eq!(b.line(), "");
    assert_eq!(b.cursor(), 0);
    assert_eq!(b.get_command(), None);
}

#[test]
fn history_keeps_its_kinds_in_order() {
    let mut b = CommandBox::new();
    b.push_output("loaded".to_string());
    b.push_error("failed".to_string());
    assert_eq!(b.history_len(), 2);
    assert_eq!(b.history_entry(0), (HistoryType::Output, &"loaded".to_string()));
    assert_eq!(b.history_entry(1), (HistoryType::Error, &"failed".to_string()));
}

#[test]
fn history_drops_the_oldest_beyond_the_limit() {
    let mut b = CommandBox::new();
    assert_eq!(HISTORY_LIMIT, 200);
    for i in 0..200 {
        b.push_output(format!("{i}"));
    }
    assert_eq!(b.history_len(), 200);
    assert_eq!(b.history_entry(0).1, "0");
    b.push_error("200".to_string());
    assert_eq!(b.history_len(), 200);
    assert_eq!(b.history_entry(0).1, "1");
    assert_eq!(b.history_entry(199), (HistoryType::Error, &"200".to_string()));
    b.push_output("201".to_string());
    assert_eq!(b.history_entry(0).1, "2");
}

#[test]
fn empty_line_is_completed_by_the_first_command() {
    let mut b = completing();
    assert_eq!(suggest(&mut b), "exit");
}

#[test]
fn tab_walks_through_the_suggestions_and_wraps() {
    let mut b = completing();
    let expected = [
        "play",
        "load track $path/*.yaml",
        "load patch $path/*.yaml",
        "load sequence $path/*.yaml",
        "create patch $name",
        "edit patch $name",
        "create sequence $name",
        "edit sequence $name",
        "exit",
    ];
    b.update_autocomplete();
    for hint in expected {
        b.handle_key(press(KeyCode::Tab));
        assert_eq!(b.hint(), hint);
    }
}

#[test]
fn hint_shows_the_rest_of_the_suggestion() {
    let mut b = completing();
    type_text(&mut b, "lo");
    assert_eq!(suggest(&mut b), "ad track $path/*.yaml");
    type_text(&mut b, "ad s");
    assert_eq!(suggest(&mut b), "equence $path/*.yaml");
}

#[test]
fn complete_command_suggests_its_argument() {
    let mut b = completing();
    type_text(&mut b, "edit patch");
    assert_eq!(suggest(&mut b), " $name");
    type_text(&mut b, " lead");
    assert_eq!(suggest(&mut b), "$name");
    let mut b = completing();
    type_text(&mut b, "exit");
    assert_eq!(suggest(&mut b), "");
    type_text(&mut b, "x");
    assert_eq!(suggest(&mut b), "");
}

#[test]
fn right_arrow_at_the_end_takes_the_suggestion() {
    let mut b = completing();
    type_text(&mut b, "cr");
    b.update_autocomplete();
    b.handle_key(press(KeyCode::Right));
    assert_eq!(b.line(), "create patch ");
    assert_eq!(b.cursor(), 13);
    let mut b = completing();
    type_text(&mut b, "ex");
    b.update_autocomplete();
    b.handle_key(press(KeyCode::Right));
    assert_eq!(b.line(), "exit");
}

#[test]
fn right_arrow_without_a_suggestion_changes_nothing() {
    let mut b = completing();
    type_text(&mut b, "zz");
    b.update_autocomplete();
    b.handle_key(press(KeyCode::Right));
    assert_eq!(b.line(), "zz");
    assert_eq!(b.cursor(), 2);
    b.handle_key(press(KeyCode::Tab));
    assert_eq!(b.hint(), "");
}

#[test]
fn selection_beyond_the_suggestions_shows_the_last_and_takes_none() {
    let mut b = completing();
    b.update_autocomplete();
    for _ in 0..8 {
        b.handle_key(press(KeyCode::Tab));
    }
    type_text(&mut b, "e");
    assert_eq!(suggest(&mut b), "dit sequence $name");
    b.handle_key(press(KeyCode::Right));
    assert_eq!(b.line(), "e");
}

#[test]
fn own_options_are_completed() {
    let mut b = CommandBox::new();
    b.set_autocomplete(vec![
        ("save".to_string(), Arg::Path("*.wav".to_string())),
        ("stop".to_string(), Arg::Nothing),
    ]);
    type_text(&mut b, "s");
    assert_eq!(suggest(&mut b), "ave $path/*.wav");
    b.handle_key(press(KeyCode::Tab));
    assert_eq!(b.hint(), "top");
    type_text(&mut b, "ü");
    assert_eq!(suggest(&mut b), "");
    assert_eq!(b.line(), "sü");
    assert_eq!(b.cursor(), 2);
}

#[test]
fn history_window_shows_the_last_entries_at_the_bottom() {
    let mut b = CommandBox::new();
    assert_eq!(b.history_window(0), (0, 0));
    assert_eq!(b.history_window(1), (0, 0));
    assert_eq!(b.history_window(5), (4, 0));
    for i in 0..3 {
        b.push_output(format!("{i}"));
    }
    assert_eq!(b.history_window(0), (0, 3));
    assert_eq!(b.history_window(1), (0, 3));
    assert_eq!(b.history_window(2), (0, 2));
    assert_eq!(b.history_window(3), (0, 1));
    assert_eq!(b.history_window(4), (0, 0));
    assert_eq!(b.history_window(5), (1, 0));
    assert_eq!(b.history_window(10), (6, 0));
}
