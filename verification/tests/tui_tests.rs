use rovdex::tui::{App, KeyCode, KeyInput, KeyOutcome};

fn key(code: KeyCode) -> KeyInput {
    KeyInput { code, control: false }
}

#[test]
fn typing_and_submitting_a_prompt() {
    let mut app = App::new();
    assert_eq!(app.history, vec![String::from("Press Enter to run the prompt. Esc or Ctrl-C exits.")]);
    assert_eq!(app.status, "ready");
    for c in " hi ".chars() {
        assert!(matches!(app.handle_key(key(KeyCode::Char(c))), KeyOutcome::Nothing));
    }
    app.handle_key(key(KeyCode::Backspace));
    assert_eq!(app.input, " hi");
    match app.handle_key(key(KeyCode::Enter)) {
        KeyOutcome::Run(prompt) => assert_eq!(prompt, "hi"),
        KeyOutcome::Nothing => panic!("expected a run"),
    }
    assert_eq!(app.input, "");
    assert_eq!(app.history.last().map(String::as_str), Some("> hi"));
    app.record_result("router", Ok((String::from("Echo: hi"), 1)));
    assert_eq!(app.history.last().map(String::as_str), Some("Echo: hi"));
    assert_eq!(app.status, "router | iterations: 1");
    app.record_result("router", Err(String::from("boom")));
    assert_eq!(app.history.last().map(String::as_str), Some("! boom"));
    assert_eq!(app.status, "error");
}

#[test]
fn blank_prompts_and_quitting() {
    let mut app = App::new();
    app.handle_key(key(KeyCode::Char(' ')));
    assert!(matches!(app.submit(), KeyOutcome::Nothing));
    assert_eq!(app.status, "empty prompt");
    assert_eq!(app.history.len(), 1);
    app.handle_key(KeyInput { code: KeyCode::Char('x'), control: true });
    assert!(!app.should_quit);
    assert_eq!(app.input, "");
    app.handle_key(KeyInput { code: KeyCode::Char('c'), control: true });
    assert!(app.should_quit);
    let mut other = App::new();
    other.handle_key(key(KeyCode::Esc));
    assert!(other.should_quit);
}

#[test]
fn screen_text() {
    let mut app = App::new();
    assert_eq!(app.title(), "Rovdex | ready");
    assert_eq!(app.shown_lines().len(), 1);
    app.history.clear();
    assert_eq!(app.shown_lines(), vec![String::from("No messages yet")]);
    app.input = String::from("abc");
    assert_eq!(app.cursor_column(2), 6);
    assert_eq!(app.cursor_column(u16::MAX - 1), u16::MAX);
}
