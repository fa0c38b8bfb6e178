use leafwing_terminal::parser::{parse, ParseError};
use leafwing_terminal::value::Value;

#[test]
fn parses_command_and_typed_args() {
    let pc = parse("log \"hello\" 3").unwrap();
    assert_eq!(pc.command, "log");
    assert_eq!(
        pc.args,
        vec![Value::Str("hello".to_string()), Value::Num("3".to_string())]
    );
}

#[test]
fn trims_surrounding_whitespace() {
    let pc = parse("  help  ").unwrap();
    assert_eq!(pc.command, "help");
    assert!(pc.args.is_empty());
}

#[test]
fn classifies_bare_tokens() {
    let pc = parse("cmd true false -3.5e2 3. tru TRUE --5").unwrap();
    assert_eq!(
        pc.args,
        vec![
            Value::Bool(true),
            Value::Bool(false),
            Value::Num("-3.5e2".to_string()),
            Value::Str("3.".to_string()),
            Value::Str("tru".to_string()),
            Value::Str("TRUE".to_string()),
            Value::Str("--5".to_string()),
        ]
    );
}

#[test]
fn round_trips_quotes_and_backslashes() {
    let pc = parse("say \"a\\\"b\\\\c\"").unwrap();
    assert_eq!(pc.args, vec![Value::Str("a\"b\\c".to_string())]);
}

#[test]
fn round_trips_empty_quoted_string() {
    let pc = parse("say \"\"").unwrap();
    assert_eq!(pc.args, vec![Value::Str(String::new())]);
}

#[test]
fn quoted_string_may_hold_spaces() {
    let pc = parse("say \"two words\"").unwrap();
    assert_eq!(pc.args, vec![Value::Str("two words".to_string())]);
}

#[test]
fn unterminated_quote_is_an_error() {
    assert_eq!(parse("log \"abc"), Err(ParseError));
}

#[test]
fn unknown_escape_is_an_error() {
    assert_eq!(parse("log \"a\\nb\""), Err(ParseError));
}

#[test]
fn trailing_backslash_is_an_error() {
    assert_eq!(parse("log \"abc\\"), Err(ParseError));
}

#[test]
fn quote_must_close_a_token() {
    assert_eq!(parse("log \"a\"b"), Err(ParseError));
}

#[test]
fn command_name_takes_no_quoting() {
    let pc = parse("\"log\" x").unwrap();
    assert_eq!(pc.command, "\"log\"");
    assert_eq!(pc.args, vec![Value::Str("x".to_string())]);
}

#[test]
fn numbers_with_exponent_and_sign() {
    let pc = parse("n 1e3 1E+3 -0.5 007").unwrap();
    assert_eq!(
        pc.args,
        vec![
            Value::Num("1e3".to_string()),
            Value::Num("1E+3".to_string()),
            Value::Num("-0.5".to_string()),
            Value::Num("007".to_string()),
        ]
    );
}
