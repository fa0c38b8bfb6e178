use leafwing_terminal::dispatch::PrintTerminalLine;
use leafwing_terminal::session::{receive_terminal_line, TerminalState};

fn submit_line(state: &mut TerminalState, line: &str, bound: usize) {
    state.buf = line.to_string();
    state.submit(bound);
}

#[test]
fn fresh_session_holds_only_the_scratch_slot() {
    let state = TerminalState::default();
    assert_eq!(state.buf, "");
    assert!(state.scrollback.is_empty());
    assert_eq!(state.history, vec![String::new()]);
    assert_eq!(state.history_index, 0);
}

#[test]
fn blank_submit_appends_one_empty_line_only() {
    let mut state = TerminalState::default();
    state.buf = "   ".to_string();
    let entered = state.submit(20);
    assert!(entered.is_none());
    assert_eq!(state.scrollback, vec![String::new()]);
    assert_eq!(state.buf, "   ");
    assert_eq!(state.history, vec![String::new()]);
}

#[test]
fn submit_echoes_parses_and_clears() {
    let mut state = TerminalState::default();
    state.buf = "log \"hi\"".to_string();
    let entered = state.submit(20).unwrap();
    assert_eq!(entered.command, "log");
    assert_eq!(state.scrollback, vec!["$ log \"hi\"".to_string()]);
    assert_eq!(state.history, vec![String::new(), "log \"hi\"".to_string()]);
    assert_eq!(state.buf, "");
    assert_eq!(state.history_index, 0);
}

#[test]
fn malformed_submit_appends_the_fixed_error_line() {
    let mut state = TerminalState::default();
    state.buf = "log \"unterminated".to_string();
    let entered = state.submit(20);
    assert!(entered.is_none());
    assert_eq!(
        state.scrollback,
        vec![
            "$ log \"unterminated".to_string(),
            "[error] invalid argument(s)".to_string(),
        ]
    );
    assert_eq!(state.buf, "");
}

#[test]
fn history_stays_within_its_bound() {
    let mut state = TerminalState::default();
    for i in 0..10 {
        submit_line(&mut state, &format!("cmd{i}"), 3);
        assert!(state.history.len() <= 3 + 1);
    }
    assert_eq!(
        state.history,
        vec![
            String::new(),
            "cmd9".to_string(),
            "cmd8".to_string(),
            "cmd7".to_string(),
        ]
    );
}

#[test]
fn history_navigation_walks_newest_first() {
    let mut state = TerminalState::default();
    submit_line(&mut state, "a", 2);
    submit_line(&mut state, "b", 2);
    submit_line(&mut state, "c", 2);
    assert_eq!(
        state.history,
        vec![String::new(), "c".to_string(), "b".to_string()]
    );
    state.history_up();
    assert_eq!(state.buf, "c");
    state.history_up();
    assert_eq!(state.buf, "b");
    state.history_up();
    assert_eq!(state.buf, "b");
    state.history_down();
    assert_eq!(state.buf, "c");
    state.history_down();
    assert_eq!(state.buf, "");
    state.history_down();
    assert_eq!(state.buf, "");
}

#[test]
fn browsing_away_snapshots_the_edit_in_progress() {
    let mut state = TerminalState::default();
    submit_line(&mut state, "older", 20);
    state.buf = "draft".to_string();
    state.history_up();
    assert_eq!(state.buf, "older");
    state.history_down();
    assert_eq!(state.buf, "draft");
}

#[test]
fn clear_scrollback_keeps_history_and_buffer() {
    let mut state = TerminalState::default();
    submit_line(&mut state, "a", 20);
    state.buf = "typing".to_string();
    state.clear_scrollback();
    assert!(state.scrollback.is_empty());
    assert_eq!(state.buf, "typing");
    assert_eq!(state.history, vec![String::new(), "a".to_string()]);
}

#[test]
fn received_lines_grow_the_scrollback_in_order() {
    let mut state = TerminalState::default();
    let events = vec![
        PrintTerminalLine::new("one".to_string()),
        PrintTerminalLine::new("two".to_string()),
    ];
    receive_terminal_line(&mut state, &events);
    assert_eq!(state.scrollback, vec!["one".to_string(), "two".to_string()]);
}
