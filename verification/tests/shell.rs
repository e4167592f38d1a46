use rustproc::commands::{LineKind, OutputLine, ShellError};
use rustproc::shell::history::History;
use rustproc::shell::{
    cap_output, dispatch, update_last_ai_response, Dispatch, DispatchOutcome, Key, KeyAction,
    ShellSession, MAX_LINES,
};

fn type_text(s: &mut ShellSession, text: &str) {
    for c in text.chars() {
        assert!(matches!(s.handle_key(Key::Char(c)), KeyAction::Continue));
    }
}

#[test]
fn session_greets() {
    let s = ShellSession::new(false);
    assert_eq!(s.output.len(), 2);
    assert_eq!(s.output[1].kind, LineKind::Warning);
    assert_eq!(ShellSession::new(true).output[1].text, "AI: OpenCode connected.");
}

#[test]
fn enter_runs_the_trimmed_command() {
    let mut s = ShellSession::new(true);
    type_text(&mut s, "  ls -l ");
    match s.handle_key(Key::Enter) {
        KeyAction::Run(c) => assert_eq!(c, "ls -l"),
        _ => panic!("expected a command"),
    }
    assert_eq!(s.input, "");
    assert_eq!(s.output.last().unwrap().text, "$ ls -l");
    assert_eq!(s.output.last().unwrap().kind, LineKind::Dim);
    type_text(&mut s, "   ");
    assert!(matches!(s.handle_key(Key::Enter), KeyAction::Continue));
    assert_eq!(s.history.lines().len(), 1);
}

#[test]
fn editing_keys() {
    let mut s = ShellSession::new(true);
    type_text(&mut s, "abc");
    s.handle_key(Key::Backspace);
    assert_eq!(s.input, "ab");
    s.handle_key(Key::Control('x'));
    assert_eq!(s.input, "abx");
    s.handle_key(Key::Backspace);
    s.handle_key(Key::Backspace);
    s.handle_key(Key::Backspace);
    s.handle_key(Key::Backspace);
    assert_eq!(s.input, "");
    assert!(matches!(s.handle_key(Key::Other), KeyAction::Continue));
    assert!(matches!(s.handle_key(Key::Control('d')), KeyAction::Exit));
    assert!(matches!(s.handle_key(Key::Esc), KeyAction::Exit));
}

#[test]
fn ctrl_c_exits_and_keeps_input() {
    let mut s = ShellSession::new(true);
    type_text(&mut s, "half typed");
    assert!(matches!(s.handle_key(Key::Control('c')), KeyAction::Exit));
    assert_eq!(s.input, "half typed");
}

#[test]
fn up_and_down_walk_history() {
    let mut s = ShellSession::new(true);
    for c in ["one", "two"] {
        type_text(&mut s, c);
        s.handle_key(Key::Enter);
    }
    s.handle_key(Key::Up);
    assert_eq!(s.input, "two");
    s.handle_key(Key::Up);
    assert_eq!(s.input, "one");
    s.handle_key(Key::Down);
    assert_eq!(s.input, "two");
    s.handle_key(Key::Down);
    assert_eq!(s.input, "");
    s.handle_key(Key::Down);
    assert_eq!(s.input, "");
}

#[test]
fn outcomes_update_the_session() {
    let mut s = ShellSession::new(true);
    let lines = vec![OutputLine::ai_header("h".to_string()), OutputLine::ai("a".to_string()), OutputLine::ai("b".to_string())];
    assert!(!s.apply_outcome(DispatchOutcome::Lines(Ok(lines))));
    assert_eq!(s.last_ai_response, "a\nb");
    assert_eq!(s.output.len(), 5);
    assert!(!s.apply_outcome(DispatchOutcome::Lines(Ok(vec![OutputLine::normal("x".to_string())]))));
    assert_eq!(s.last_ai_response, "a\nb");
    assert!(!s.apply_outcome(DispatchOutcome::Lines(Err(ShellError("bad".to_string())))));
    assert_eq!(s.output.last().unwrap().kind, LineKind::Error);
    assert_eq!(s.output.last().unwrap().text, "bad");
    assert!(!s.apply_outcome(DispatchOutcome::Clear));
    assert!(s.output.is_empty());
    assert!(s.apply_outcome(DispatchOutcome::Exit));
}

#[test]
fn output_is_capped_to_the_newest_lines() {
    let mut s = ShellSession::new(true);
    let many: Vec<OutputLine> = (0..600).map(|i| OutputLine::normal(format!("{}", i))).collect();
    s.apply_outcome(DispatchOutcome::Lines(Ok(many)));
    assert_eq!(s.output.len(), MAX_LINES);
    assert_eq!(s.output[0].text, "100");
    assert_eq!(s.output.last().unwrap().text, "599");
    let mut v: Vec<OutputLine> = (0..3).map(|i| OutputLine::normal(format!("{}", i))).collect();
    cap_output(&mut v);
    assert_eq!(v.len(), 3);
}

#[test]
fn last_ai_response_tracks_answers() {
    let mut last = "old".to_string();
    update_last_ai_response(&vec![OutputLine::normal("n".to_string())], &mut last);
    assert_eq!(last, "old");
    update_last_ai_response(&vec![OutputLine::ai("x".to_string()), OutputLine::dim("d".to_string()), OutputLine::ai("y".to_string())], &mut last);
    assert_eq!(last, "x\ny");
}

#[test]
fn dispatch_decisions() {
    let mut h = History::default();
    h.push("ls".to_string());
    assert!(matches!(dispatch("exit", &h, true), Dispatch::Done(DispatchOutcome::Exit)));
    assert!(matches!(dispatch("clear", &h, true), Dispatch::Done(DispatchOutcome::Clear)));
    match dispatch("  ", &h, true) {
        Dispatch::Done(DispatchOutcome::Lines(Ok(v))) => assert!(v.is_empty()),
        _ => panic!("expected no output"),
    }
    match dispatch("history", &h, true) {
        Dispatch::Done(DispatchOutcome::Lines(Ok(v))) => assert_eq!(v[0].text, "   1  ls"),
        _ => panic!("expected the history"),
    }
    match dispatch("help", &h, false) {
        Dispatch::Done(DispatchOutcome::Lines(Ok(v))) => assert_eq!(v.len(), 5),
        _ => panic!("expected help"),
    }
    match dispatch("ai hello", &h, false) {
        Dispatch::Done(DispatchOutcome::Lines(Ok(v))) => assert_eq!(v[0].kind, LineKind::Error),
        _ => panic!("expected the install message"),
    }
    assert!(matches!(dispatch("ai hello", &h, true), Dispatch::Ai(_)));
    assert!(matches!(dispatch("cd /", &h, true), Dispatch::Builtin(_)));
    assert!(matches!(dispatch("ls", &h, true), Dispatch::External("ls")));
}
