use eesh::input::{InputHandler, KeyCode, KeyInput, MOD_CONTROL, MOD_SHIFT};

fn ch(c: char) -> KeyInput {
    KeyInput { code: KeyCode::Char(c), mods: 0 }
}

fn key(code: KeyCode) -> KeyInput {
    KeyInput { code, mods: 0 }
}

#[test]
fn backspace_removes_the_newest_press() {
    let mut rec = InputHandler::new();
    rec.append(ch('a'));
    rec.append(ch('b'));
    rec.append(key(KeyCode::Backspace));
    rec.append(ch('c'));
    assert_eq!(rec.to_display_string(), "ac");
}

#[test]
fn escape_clears_the_recording() {
    let mut rec = InputHandler::new();
    rec.append(ch('x'));
    rec.append(ch('y'));
    rec.append(key(KeyCode::Esc));
    assert_eq!(rec.to_display_string(), "");
    assert_eq!(rec.motion().len(), 0);
    rec.append(ch('z'));
    assert_eq!(rec.to_display_string(), "z");
}

#[test]
fn backspace_on_empty_recording_is_a_no_op() {
    let mut rec = InputHandler::new();
    rec.append(key(KeyCode::Backspace));
    assert_eq!(rec.motion().len(), 0);
    assert_eq!(rec.to_display_string(), "");
}

#[test]
fn clear_empties_unconditionally() {
    let mut rec = InputHandler::new();
    rec.append(ch('q'));
    rec.clear();
    assert_eq!(rec.motion().len(), 0);
}

#[test]
fn control_presses_show_a_caret() {
    let mut rec = InputHandler::new();
    rec.append(KeyInput { code: KeyCode::Char('c'), mods: MOD_CONTROL });
    rec.append(ch('d'));
    assert_eq!(rec.to_display_string(), "^cd");
}

#[test]
fn shift_alone_shows_no_caret() {
    let mut rec = InputHandler::new();
    rec.append(KeyInput { code: KeyCode::Char('A'), mods: MOD_SHIFT });
    assert_eq!(rec.to_display_string(), "A");
}

#[test]
fn non_printable_presses_show_nothing() {
    let mut rec = InputHandler::new();
    rec.append(ch('a'));
    rec.append(key(KeyCode::Other(7)));
    rec.append(key(KeyCode::Enter));
    assert_eq!(rec.to_display_string(), "a");
    // The presses themselves are still recorded verbatim.
    assert_eq!(rec.motion().len(), 3);
    assert_eq!(rec.motion()[1], key(KeyCode::Other(7)));
    assert_eq!(rec.motion()[2], key(KeyCode::Enter));
}
