use leafwing_terminal::value::{
    bool_from_values, i32_from_values, i64_from_values, opt_i64_from_values, opt_u32_from_values,
    opt_string_from_values, string_from_values, u32_from_values, u64_from_values, FromValueError,
    IntKind, Value, ValueType,
};

fn num(s: &str) -> Value {
    Value::Num(s.to_string())
}

#[test]
fn missing_required_arg_is_not_enough_args() {
    let args: Vec<Value> = vec![];
    assert_eq!(string_from_values(&args, 0), Err(FromValueError::NotEnoughArgs));
    assert_eq!(i64_from_values(&args, 0), Err(FromValueError::NotEnoughArgs));
    assert_eq!(bool_from_values(&args, 0), Err(FromValueError::NotEnoughArgs));
}

#[test]
fn missing_optional_arg_is_success() {
    let args: Vec<Value> = vec![];
    assert_eq!(opt_string_from_values(&args, 0), Ok(None));
    assert_eq!(opt_i64_from_values(&args, 0), Ok(None));
}

#[test]
fn tag_mismatch_is_unexpected_arg_type() {
    let args = vec![Value::Bool(true)];
    assert_eq!(
        string_from_values(&args, 0),
        Err(FromValueError::UnexpectedArgType {
            expected: ValueType::String,
            received: ValueType::Bool,
        })
    );
    assert_eq!(
        i64_from_values(&args, 0),
        Err(FromValueError::UnexpectedArgType {
            expected: ValueType::Number,
            received: ValueType::Bool,
        })
    );
}

#[test]
fn converts_plain_integers() {
    let args = vec![num("42"), num("-7"), num("007")];
    assert_eq!(i64_from_values(&args, 0), Ok(42));
    assert_eq!(i64_from_values(&args, 1), Ok(-7));
    assert_eq!(i64_from_values(&args, 2), Ok(7));
    assert_eq!(u64_from_values(&args, 0), Ok(42));
    assert_eq!(opt_i64_from_values(&args, 1), Ok(Some(-7)));
}

#[test]
fn converts_integer_extremes() {
    let args = vec![
        num("9223372036854775807"),
        num("-9223372036854775808"),
        num("18446744073709551615"),
    ];
    assert_eq!(i64_from_values(&args, 0), Ok(i64::MAX));
    assert_eq!(i64_from_values(&args, 1), Ok(i64::MIN));
    assert_eq!(u64_from_values(&args, 2), Ok(u64::MAX));
}

#[test]
fn out_of_range_integers_are_too_large() {
    let args = vec![
        num("9223372036854775808"),
        num("-9223372036854775809"),
        num("18446744073709551616"),
        num("-1"),
    ];
    assert_eq!(
        i64_from_values(&args, 0),
        Err(FromValueError::ValueTooLarge { target: IntKind::I64 })
    );
    assert_eq!(
        i64_from_values(&args, 1),
        Err(FromValueError::ValueTooLarge { target: IntKind::I64 })
    );
    assert_eq!(
        u64_from_values(&args, 2),
        Err(FromValueError::ValueTooLarge { target: IntKind::U64 })
    );
    assert_eq!(
        u64_from_values(&args, 3),
        Err(FromValueError::ValueTooLarge { target: IntKind::U64 })
    );
}

#[test]
fn fractional_or_exponent_literals_do_not_fit_integers() {
    let args = vec![num("3.5"), num("1e3")];
    assert_eq!(
        i64_from_values(&args, 0),
        Err(FromValueError::ValueTooLarge { target: IntKind::I64 })
    );
    assert_eq!(
        i64_from_values(&args, 1),
        Err(FromValueError::ValueTooLarge { target: IntKind::I64 })
    );
}

#[test]
fn narrower_integers_check_their_own_range() {
    let args = vec![num("2147483647"), num("2147483648"), num("4294967295"), num("-1")];
    assert_eq!(i32_from_values(&args, 0), Ok(i32::MAX));
    assert_eq!(
        i32_from_values(&args, 1),
        Err(FromValueError::ValueTooLarge { target: IntKind::I32 })
    );
    assert_eq!(u32_from_values(&args, 2), Ok(u32::MAX));
    assert_eq!(
        u32_from_values(&args, 3),
        Err(FromValueError::ValueTooLarge { target: IntKind::U32 })
    );
    assert_eq!(opt_u32_from_values(&args, 9), Ok(None));
}

#[test]
fn extracts_bools_and_strings() {
    let args = vec![Value::Bool(false), Value::Str("hi".to_string())];
    assert_eq!(bool_from_values(&args, 0), Ok(false));
    assert_eq!(string_from_values(&args, 1), Ok("hi".to_string()));
    assert_eq!(opt_string_from_values(&args, 1), Ok(Some("hi".to_string())));
}

#[test]
fn error_messages_render() {
    assert_eq!(
        FromValueError::NotEnoughArgs.message(),
        "not enough arguments provided"
    );
    assert_eq!(
        FromValueError::UnexpectedArgType {
            expected: ValueType::Number,
            received: ValueType::String,
        }
        .message(),
        "expected argument of type number, received string"
    );
    assert_eq!(
        FromValueError::ValueTooLarge { target: IntKind::I64 }.message(),
        "number is too large for i64"
    );
    assert_eq!(
        FromValueError::Custom("bad input".to_string()).message(),
        "bad input"
    );
}
