use leafwing_terminal::commands::{help_command, HelpCommand, LogCommand};
use leafwing_terminal::dispatch::{catch_command, CommandHelp, TerminalCommandEntered};
use leafwing_terminal::help::{CommandArgInfo, CommandInfo};
use leafwing_terminal::registry::TerminalConfiguration;
use leafwing_terminal::value::Value;

fn info(name: &str, description: &str) -> CommandInfo {
    CommandInfo {
        name: name.to_string(),
        description: Some(description.to_string()),
        args: Vec::new(),
    }
}

#[test]
fn default_configuration_is_empty_with_bound_twenty() {
    let config = TerminalConfiguration::default();
    assert_eq!(config.history_size, 20);
    assert!(config.entries().is_empty());
}

#[test]
fn registers_and_looks_up() {
    let mut config = TerminalConfiguration::new();
    assert!(!config.register("log", Some(info("log", "logs"))));
    assert_eq!(config.lookup("log"), Some(&Some(info("log", "logs"))));
    assert_eq!(config.lookup("bogus"), None);
}

#[test]
fn reregistration_keeps_one_entry_and_the_second_schema() {
    let mut config = TerminalConfiguration::new();
    assert!(!config.register("log", Some(info("log", "first"))));
    assert!(config.register("log", Some(info("log", "second"))));
    assert_eq!(config.entries().len(), 1);
    assert_eq!(config.lookup("log"), Some(&Some(info("log", "second"))));
}

#[test]
fn entries_stay_alphabetized() {
    let mut config = TerminalConfiguration::new();
    config.register("log", None);
    config.register("clear", None);
    config.register("help", None);
    config.register("exit", None);
    let names: Vec<&str> = config.entries().iter().map(|e| e.name.as_str()).collect();
    assert_eq!(names, vec!["clear", "exit", "help", "log"]);
}

#[test]
fn renders_full_help_text() {
    let text = LogCommand::command_help().unwrap().help_text();
    assert_eq!(
        text,
        "Usage:\n\n  > log <msg> [num]\n\n  Prints given arguments to the terminal\n\n    \
         msg <string>   - Message to print\n    num [number]   - Number of times to print message\n"
    );
}

#[test]
fn renders_help_without_description_or_args() {
    let text = CommandInfo {
        name: "ping".to_string(),
        description: None,
        args: Vec::new(),
    }
    .help_text();
    assert_eq!(text, "Usage:\n\n  > ping\n\n");
}

#[test]
fn pads_argument_columns_to_the_widest_entry() {
    let text = CommandInfo {
        name: "c".to_string(),
        description: None,
        args: vec![
            CommandArgInfo {
                name: "a".to_string(),
                ty: "string".to_string(),
                description: Some("first".to_string()),
                optional: false,
            },
            CommandArgInfo {
                name: "long".to_string(),
                ty: "number".to_string(),
                description: None,
                optional: true,
            },
        ],
    }
    .help_text();
    assert_eq!(
        text,
        "Usage:\n\n  > c <a> [long]\n\n    a    <string>   - first\n    long [number]\n"
    );
}

#[test]
fn reindents_multiline_descriptions() {
    let text = CommandInfo {
        name: "c".to_string(),
        description: Some("one\n    already indented\nthree".to_string()),
        args: Vec::new(),
    }
    .help_text();
    assert_eq!(
        text,
        "Usage:\n\n  > c\n\n  one\n    already indented\n  three\n\n"
    );
}

fn help_event(arg: Option<&str>) -> TerminalCommandEntered {
    TerminalCommandEntered {
        command: "help".to_string(),
        args: match arg {
            Some(a) => vec![Value::Str(a.to_string())],
            None => vec![],
        },
    }
}

fn replies_for(config: &TerminalConfiguration, arg: Option<&str>) -> Vec<String> {
    let events = vec![help_event(arg)];
    let mut help = catch_command::<HelpCommand>(&events);
    help_command(&mut help, config);
    help.lines().iter().map(|l| l.line.clone()).collect()
}

#[test]
fn help_for_command_without_stored_help() {
    let mut config = TerminalConfiguration::new();
    config.register("log", None);
    assert_eq!(
        replies_for(&config, Some("log")),
        vec!["Help not available for command 'log'".to_string()]
    );
}

#[test]
fn help_for_unknown_command() {
    let config = TerminalConfiguration::new();
    assert_eq!(
        replies_for(&config, Some("bogus")),
        vec!["Command 'bogus' does not exist".to_string()]
    );
}

#[test]
fn help_for_command_with_stored_help() {
    let mut config = TerminalConfiguration::new();
    config.register("log", LogCommand::command_help());
    let replies = replies_for(&config, Some("log"));
    assert_eq!(replies.len(), 1);
    assert!(replies[0].starts_with("Usage:\n\n  > log <msg> [num]"));
}

#[test]
fn help_listing_is_alphabetized_and_padded() {
    let mut config = TerminalConfiguration::new();
    config.register("log", Some(info("log", "logs a message")));
    config.register("clear", None);
    assert_eq!(
        replies_for(&config, None),
        vec![
            "Available commands:".to_string(),
            "  clear".to_string(),
            "  log   - logs a message".to_string(),
            "".to_string(),
        ]
    );
}
