use rustproc::shell::history::History;

fn entries(h: &History) -> Vec<String> {
    h.lines().into_iter().map(|(_, s)| s.clone()).collect()
}

#[test]
fn push_skips_blank_and_repeated_commands() {
    let mut h = History::default();
    h.push("ls".to_string());
    h.push("   ".to_string());
    h.push("ls".to_string());
    h.push("pwd".to_string());
    h.push("ls".to_string());
    assert_eq!(entries(&h), vec!["ls", "pwd", "ls"]);
    let numbered: Vec<usize> = h.lines().into_iter().map(|(i, _)| i).collect();
    assert_eq!(numbered, vec![0, 1, 2]);
}

#[test]
fn up_walks_back_and_stops_at_oldest() {
    let mut h = History::default();
    for c in ["a", "b", "c", "d", "e"] {
        h.push(c.to_string());
    }
    assert_eq!(h.previous(), Some("e"));
    assert_eq!(h.previous(), Some("d"));
    assert_eq!(h.previous(), Some("c"));
    assert_eq!(h.previous(), Some("b"));
    assert_eq!(h.previous(), Some("a"));
    assert_eq!(h.previous(), Some("a"));
}

#[test]
fn down_returns_to_an_empty_prompt() {
    let mut h = History::default();
    for c in ["a", "b", "c"] {
        h.push(c.to_string());
    }
    assert_eq!(h.next(), None);
    assert_eq!(h.previous(), Some("c"));
    assert_eq!(h.previous(), Some("b"));
    assert_eq!(h.next(), Some("c"));
    assert_eq!(h.next(), Some(""));
    assert_eq!(h.next(), None);
}

#[test]
fn empty_history_has_nothing_to_recall() {
    let mut h = History::default();
    assert_eq!(h.previous(), None);
    assert_eq!(h.next(), None);
    assert!(h.lines().is_empty());
}

#[test]
fn reset_and_push_end_navigation() {
    let mut h = History::default();
    h.push("a".to_string());
    h.push("b".to_string());
    assert_eq!(h.previous(), Some("b"));
    assert_eq!(h.previous(), Some("a"));
    h.reset_cursor();
    assert_eq!(h.next(), None);
    assert_eq!(h.previous(), Some("b"));
    h.push("c".to_string());
    assert_eq!(h.previous(), Some("c"));
}

#[test]
fn blank_push_keeps_navigation_position() {
    let mut h = History::default();
    h.push("a".to_string());
    h.push("b".to_string());
    assert_eq!(h.previous(), Some("b"));
    h.push("  ".to_string());
    assert_eq!(h.previous(), Some("a"));
}
