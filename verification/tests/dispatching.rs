use leafwing_terminal::commands::{
    clear_command, exit_command, log_command, ClearCommand, ExitCommand, LogCommand,
};
use leafwing_terminal::dispatch::{catch_command, TerminalCommandEntered};
use leafwing_terminal::parser::parse;
use leafwing_terminal::session::{receive_terminal_line, TerminalState};
use leafwing_terminal::value::Value;

fn entered(line: &str) -> TerminalCommandEntered {
    let pc = parse(line).unwrap();
    TerminalCommandEntered { command: pc.command, args: pc.args }
}

fn lines_of<T>(tc: &leafwing_terminal::dispatch::TerminalCommand<T>) -> Vec<String> {
    tc.lines().iter().map(|l| l.line.clone()).collect()
}

#[test]
fn log_scenario_binds_and_replies_three_times() {
    let events = vec![entered("log \"hello\" 3")];
    assert_eq!(events[0].command, "log");
    assert_eq!(
        events[0].args,
        vec![Value::Str("hello".to_string()), Value::Num("3".to_string())]
    );
    let mut log = catch_command::<LogCommand>(&events);
    log_command(&mut log);
    assert_eq!(
        lines_of(&log),
        vec![
            "hello".to_string(),
            "hello".to_string(),
            "hello".to_string(),
            "[ok]".to_string(),
        ]
    );
}

#[test]
fn log_without_count_replies_once() {
    let events = vec![entered("log \"hi\"")];
    let mut log = catch_command::<LogCommand>(&events);
    log_command(&mut log);
    assert_eq!(lines_of(&log), vec!["hi".to_string(), "[ok]".to_string()]);
}

#[test]
fn missing_required_arg_replies_error_then_help() {
    let events = vec![entered("log")];
    let log = catch_command::<LogCommand>(&events);
    let replies = lines_of(&log);
    assert_eq!(replies.len(), 2);
    assert_eq!(replies[0], "not enough arguments provided");
    assert!(replies[1].starts_with("Usage:\n\n  > log <msg> [num]"));
}

#[test]
fn numeric_range_failure_emits_no_help() {
    let events = vec![entered("log \"x\" 3.5")];
    let log = catch_command::<LogCommand>(&events);
    assert_eq!(lines_of(&log), vec!["number is too large for i64".to_string()]);
}

#[test]
fn unknown_command_matches_no_binder() {
    let events = vec![entered("unknown_cmd 1 2")];
    let mut log = catch_command::<LogCommand>(&events);
    let mut clear = catch_command::<ClearCommand>(&events);
    let mut exit = catch_command::<ExitCommand>(&events);
    assert!(lines_of(&log).is_empty());
    assert!(lines_of(&clear).is_empty());
    assert!(lines_of(&exit).is_empty());
    assert!(log.take().is_none());
    assert!(clear.take().is_none());
    assert!(exit.take().is_none());
}

#[test]
fn binder_reacts_to_the_first_matching_event() {
    let events = vec![entered("clear"), entered("log \"a\""), entered("log \"b\"")];
    let mut log = catch_command::<LogCommand>(&events);
    let bound = log.take().unwrap();
    assert_eq!(bound.msg, "a");
    assert_eq!(bound.num, None);
}

#[test]
fn take_yields_nothing_the_second_time() {
    let events = vec![entered("log \"hello\"")];
    let mut log = catch_command::<LogCommand>(&events);
    assert!(log.take().is_some());
    assert!(log.take().is_none());
}

#[test]
fn reply_helpers_queue_in_order() {
    let events = vec![entered("log \"hello\"")];
    let mut log = catch_command::<LogCommand>(&events);
    log.reply("first");
    log.reply_ok("second");
    log.reply_failed("third");
    log.failed();
    assert_eq!(
        lines_of(&log),
        vec![
            "first".to_string(),
            "second".to_string(),
            "[ok]".to_string(),
            "third".to_string(),
            "[failed]".to_string(),
            "[failed]".to_string(),
        ]
    );
}

#[test]
fn clear_command_empties_the_scrollback() {
    let mut state = TerminalState::default();
    state.buf = "clear".to_string();
    let ev = state.submit(20).unwrap();
    assert_eq!(state.scrollback.len(), 1);
    let events = vec![ev];
    let mut clear = catch_command::<ClearCommand>(&events);
    clear_command(&mut clear, &mut state);
    assert!(state.scrollback.is_empty());
    assert!(lines_of(&clear).is_empty());
}

#[test]
fn exit_command_asks_the_host_to_quit() {
    let events = vec![entered("exit")];
    let mut exit = catch_command::<ExitCommand>(&events);
    assert!(exit_command(&mut exit));
    assert_eq!(lines_of(&exit), vec!["[ok]".to_string()]);
    let no_events: Vec<TerminalCommandEntered> = vec![];
    let mut idle = catch_command::<ExitCommand>(&no_events);
    assert!(!exit_command(&mut idle));
}

#[test]
fn replies_flow_back_into_the_scrollback() {
    let mut state = TerminalState::default();
    let events = vec![entered("log \"hey\" 2")];
    let mut log = catch_command::<LogCommand>(&events);
    log_command(&mut log);
    receive_terminal_line(&mut state, log.lines());
    assert_eq!(
        state.scrollback,
        vec!["hey".to_string(), "hey".to_string(), "[ok]".to_string()]
    );
}
