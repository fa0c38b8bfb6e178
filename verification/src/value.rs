//! The literal value model and the typed-argument conversion protocol.
//!
//! A token parsed from an input line carries exactly one of a boolean, a
//! base-10 numeric literal (kept as its text), or a string. Argument binders
//! extract a target type from a position in the argument list; absence of an
//! optional argument is success, every other failure is a `FromValueError`.

use vstd::prelude::*;

verus! {

/// One decimal digit.
pub open spec fn is_digit(c: char) -> bool {
    ('0' as u32) <= (c as u32) && (c as u32) <= ('9' as u32)
}

/// The numeric value of a decimal digit.
pub open spec fn digit_of(c: char) -> int {
    (c as u32) - ('0' as u32)
}

/// The first position at or after `i` that does not hold a decimal digit.
pub open spec fn digits_end(t: Seq<char>, i: int) -> int
    decreases t.len() - i when 0 <= i <= t.len()
{
    if i < t.len() && is_digit(t[i]) {
        digits_end(t, i + 1)
    } else {
        i
    }
}

/// `digits_end` yields the end of the maximal digit run starting at `i`.
pub proof fn lemma_digits_end(t: Seq<char>, i: int)
    requires
        0 <= i <= t.len(),
    ensures
        i <= digits_end(t, i) <= t.len(),
        forall|k: int| i <= k < digits_end(t, i) ==> is_digit(t[k]),
        digits_end(t, i) < t.len() ==> !is_digit(t[digits_end(t, i)]),
    decreases t.len() - i,
{
    if i < t.len() && is_digit(t[i]) {
        lemma_digits_end(t, i + 1);
    }
}

/// The value of the digit run `t[i..j)`, most significant digit first.
pub open spec fn digits_val(t: Seq<char>, i: int, j: int) -> int
    decreases j - i when i <= j
{
    if j <= i {
        0
    } else {
        digits_val(t, i, j - 1) * 10 + digit_of(t[j - 1])
    }
}

/// A digit run's value is never negative.
pub proof fn lemma_digits_val_nonneg(t: Seq<char>, i: int, j: int)
    requires
        i <= j,
        forall|k: int| i <= k < j ==> is_digit(t[k]),
    ensures
        digits_val(t, i, j) >= 0,
    decreases j - i,
{
    if j > i {
        lemma_digits_val_nonneg(t, i, j - 1);
    }
}

/// Extending a digit run to the right never lowers its value.
pub proof fn lemma_digits_val_mono(t: Seq<char>, i: int, k: int, j: int)
    requires
        i <= k <= j,
        forall|m: int| i <= m < j ==> is_digit(t[m]),
    ensures
        digits_val(t, i, j) >= digits_val(t, i, k),
    decreases j - k,
{
    if j > k {
        lemma_digits_val_mono(t, i, k, j - 1);
        lemma_digits_val_nonneg(t, i, j - 1);
    }
}

/// End of the optional fractional part that may start at `i`;
/// -1 when a `.` is not followed by at least one digit.
pub open spec fn frac_end(t: Seq<char>, i: int) -> int {
    if 0 <= i && i < t.len() && t[i] == '.' {
        if 0 <= i + 1 <= t.len() && digits_end(t, i + 1) > i + 1 {
            digits_end(t, i + 1)
        } else {
            -1
        }
    } else {
        i
    }
}

/// End of the optional exponent part that may start at `i`;
/// -1 when an `e`/`E` is not followed by a well-formed exponent.
pub open spec fn exp_end(t: Seq<char>, i: int) -> int {
    if i < 0 {
        -1
    } else if i < t.len() && (t[i] == 'e' || t[i] == 'E') {
        let s = if i + 1 < t.len() && (t[i + 1] == '+' || t[i + 1] == '-') {
            i + 2
        } else {
            i + 1
        };
        if s <= t.len() && digits_end(t, s) > s {
            digits_end(t, s)
        } else {
            -1
        }
    } else {
        i
    }
}

/// A bare token that reads as a base-10 floating point number: an optional
/// leading `-`, at least one integer digit, an optional fractional part
/// (`.` and at least one digit), and an optional exponent
/// (`e` or `E`, an optional sign, and at least one digit).
pub open spec fn is_number_token(t: Seq<char>) -> bool {
    let i1: int = if t.len() > 0 && t[0] == '-' {
        1
    } else {
        0
    };
    let i2 = digits_end(t, i1);
    let i3 = frac_end(t, i2);
    let i4 = exp_end(t, i3);
    &&& i1 <= t.len()
    &&& i2 > i1
    &&& i3 >= 0
    &&& i4 == t.len()
}

/// The exact integer a numeric token denotes, when it is written in plain
/// integer form: an optional `-` followed only by digits. A token with a
/// fractional part or an exponent denotes no plain integer.
pub open spec fn int_token_value(t: Seq<char>) -> Option<int> {
    if t.len() >= 2 && t[0] == '-' && digits_end(t, 1) == t.len() {
        Some(-digits_val(t, 1, t.len() as int))
    } else if t.len() >= 1 && digits_end(t, 0) == t.len() {
        Some(digits_val(t, 0, t.len() as int))
    } else {
        None
    }
}

/// The type tag a literal value or an argument specification carries.
#[derive(Clone, Copy, Debug, PartialEq, Eq, Structural)]
pub enum ValueType {
    /// A boolean literal.
    Bool,
    /// A numeric literal.
    Number,
    /// A string literal.
    String,
}

/// The integer target types of the conversion protocol.
#[derive(Clone, Copy, Debug, PartialEq, Eq, Structural)]
pub enum IntKind {
    /// Conversion to `i32`.
    I32,
    /// Conversion to `i64`.
    I64,
    /// Conversion to `u32`.
    U32,
    /// Conversion to `u64`.
    U64,
}

/// One parsed token's typed representation. A numeric literal keeps the text
/// of the token; conversions to integer types read that text exactly.
#[derive(Debug, PartialEq)]
pub enum Value {
    /// A boolean literal, from a bare `true` or `false` token.
    Bool(bool),
    /// A numeric literal, holding the token's text.
    Num(String),
    /// A string literal, unescaped.
    Str(String),
}

/// The view of a literal value: the same tag over character sequences.
pub enum ValueView {
    /// A boolean literal.
    Bool(bool),
    /// A numeric literal, as the token's characters.
    Num(Seq<char>),
    /// A string literal, as its characters.
    Str(Seq<char>),
}

impl View for Value {
    type V = ValueView;

    open spec fn view(&self) -> ValueView {
        match self {
            Value::Bool(b) => ValueView::Bool(*b),
            Value::Num(s) => ValueView::Num(s@),
            Value::Str(s) => ValueView::Str(s@),
        }
    }
}

impl DeepView for Value {
    type V = ValueView;

    open spec fn deep_view(&self) -> ValueView {
        self.view()
    }
}

/// The type tag of a literal value.
pub open spec fn value_type_of(v: Value) -> ValueType {
    match v {
        Value::Bool(_) => ValueType::Bool,
        Value::Num(_) => ValueType::Number,
        Value::Str(_) => ValueType::String,
    }
}

impl Clone for Value {
    /// An equal copy of the value.
    fn clone(&self) -> (r: Value)
        ensures
            r == *self,
    {
        match self {
            Value::Bool(b) => Value::Bool(*b),
            Value::Num(s) => Value::Num(s.clone()),
            Value::Str(s) => Value::Str(s.clone()),
        }
    }
}

/// A failure of the typed-argument conversion protocol. Conversion is pure:
/// a failure is reported to the user and never propagated as a fault.
#[derive(Debug, PartialEq)]
pub enum FromValueError {
    /// Fewer literals were supplied than required parameters.
    NotEnoughArgs,
    /// A literal is present but its tag mismatches the requested type.
    UnexpectedArgType {
        /// The type the argument position requires.
        expected: ValueType,
        /// The type the supplied literal carries.
        received: ValueType,
    },
    /// A numeric literal is present but its magnitude or precision exceeds
    /// the target integer type's range.
    ValueTooLarge {
        /// The integer type the literal would not fit.
        target: IntKind,
    },
    /// A command-specific validation failure raised by a handler's converter.
    Custom(String),
}

/// The display name of a type tag.
pub open spec fn type_name_spec(t: ValueType) -> Seq<char> {
    match t {
        ValueType::Bool => "bool"@,
        ValueType::Number => "number"@,
        ValueType::String => "string"@,
    }
}

/// The display name of an integer target type.
pub open spec fn int_kind_name_spec(k: IntKind) -> Seq<char> {
    match k {
        IntKind::I32 => "i32"@,
        IntKind::I64 => "i64"@,
        IntKind::U32 => "u32"@,
        IntKind::U64 => "u64"@,
    }
}

/// The display text of a conversion failure.
pub open spec fn error_message_spec(e: FromValueError) -> Seq<char> {
    match e {
        FromValueError::NotEnoughArgs => "not enough arguments provided"@,
        FromValueError::UnexpectedArgType { expected, received } => "expected argument of type "@
            + type_name_spec(expected) + ", received "@ + type_name_spec(received),
        FromValueError::ValueTooLarge { target } => "number is too large for "@
            + int_kind_name_spec(target),
        FromValueError::Custom(m) => m@,
    }
}

/// The display name of a type tag.
pub fn tag_name(t: ValueType) -> (r: &'static str)
    ensures
        r@ == type_name_spec(t),
{
    match t {
        ValueType::Bool => "bool",
        ValueType::Number => "number",
        ValueType::String => "string",
    }
}

impl FromValueError {
    /// The display text of the failure, surfaced to the user as a reply.
    pub fn message(&self) -> (r: String)
        ensures
            r@ == error_message_spec(*self),
    {
        match self {
            FromValueError::NotEnoughArgs => {
                String::from_str("not enough arguments provided")
            },
            FromValueError::UnexpectedArgType { expected, received } => {
                let mut m = String::from_str("expected argument of type ");
                m.append(tag_name(*expected));
                m.append(", received ");
                m.append(tag_name(*received));
                proof {
                    assert(m@ =~= error_message_spec(*self));
                }
                m
            },
            FromValueError::ValueTooLarge { target } => {
                let mut m = String::from_str("number is too large for ");
                match target {
                    IntKind::I32 => m.append("i32"),
                    IntKind::I64 => m.append("i64"),
                    IntKind::U32 => m.append("u32"),
                    IntKind::U64 => m.append("u64"),
                }
                proof {
                    assert(m@ =~= error_message_spec(*self));
                }
                m
            },
            FromValueError::Custom(m) => m.clone(),
        }
    }
}

/// End of the digit run starting at `from`.
pub fn digits_end_exec(s: &str, from: usize) -> (r: usize)
    requires
        from <= s@.len(),
    ensures
        r == digits_end(s@, from as int),
        from <= r <= s@.len(),
    decreases s@.len() - from,
{
    let n = s.unicode_len();
    let mut i: usize = from;
    while i < n
        invariant
            n == s@.len(),
            from <= i <= n,
            digits_end(s@, from as int) == digits_end(s@, i as int),
        decreases n - i,
    {
        let c = s.get_char(i);
        let u = c as u32;
        if !(48 <= u && u <= 57) {
            return i;
        }
        i = i + 1;
    }
    i
}

/// The value of the digit run `s[from..to)` as a `u64`; `None` when it
/// exceeds `u64::MAX`.
pub fn digits_to_u64(s: &str, from: usize, to: usize) -> (r: Option<u64>)
    requires
        from <= to <= s@.len(),
        forall|k: int| from <= k < to ==> is_digit(s@[k]),
    ensures
        match r {
            Some(v) => v == digits_val(s@, from as int, to as int),
            None => digits_val(s@, from as int, to as int) > u64::MAX,
        },
{
    let mut acc: u64 = 0;
    let mut i: usize = from;
    while i < to
        invariant
            from <= i <= to <= s@.len(),
            forall|k: int| from <= k < to ==> is_digit(s@[k]),
            acc == digits_val(s@, from as int, i as int),
        decreases to - i,
    {
        let c = s.get_char(i);
        let d: u64 = ((c as u32) - 48) as u64;
        let next = match acc.checked_mul(10) {
            Some(m) => m.checked_add(d),
            None => None,
        };
        match next {
            Some(v) => {
                acc = v;
            },
            None => {
                proof {
                    lemma_digits_val_mono(s@, from as int, i + 1, to as int);
                }
                return None;
            },
        }
        i = i + 1;
    }
    Some(acc)
}

/// Conversion of a numeric token to `i64`: exact when the token is in plain
/// integer form and in range, `ValueTooLarge` otherwise.
pub open spec fn i64_of_token(t: Seq<char>) -> Result<i64, FromValueError> {
    match int_token_value(t) {
        Some(v) => if i64::MIN <= v <= i64::MAX {
            Ok(v as i64)
        } else {
            Err(FromValueError::ValueTooLarge { target: IntKind::I64 })
        },
        None => Err(FromValueError::ValueTooLarge { target: IntKind::I64 }),
    }
}

/// Conversion of a numeric token to `i32`: exact when the token is in plain
/// integer form and in range, `ValueTooLarge` otherwise.
pub open spec fn i32_of_token(t: Seq<char>) -> Result<i32, FromValueError> {
    match int_token_value(t) {
        Some(v) => if i32::MIN <= v <= i32::MAX {
            Ok(v as i32)
        } else {
            Err(FromValueError::ValueTooLarge { target: IntKind::I32 })
        },
        None => Err(FromValueError::ValueTooLarge { target: IntKind::I32 }),
    }
}

/// Conversion of a numeric token to `u32`: exact when the token is in plain
/// integer form and in range, `ValueTooLarge` otherwise.
pub open spec fn u32_of_token(t: Seq<char>) -> Result<u32, FromValueError> {
    match int_token_value(t) {
        Some(v) => if 0 <= v <= u32::MAX {
            Ok(v as u32)
        } else {
            Err(FromValueError::ValueTooLarge { target: IntKind::U32 })
        },
        None => Err(FromValueError::ValueTooLarge { target: IntKind::U32 }),
    }
}

/// Conversion of a numeric token to `u64`: exact when the token is in plain
/// integer form and in range, `ValueTooLarge` otherwise.
pub open spec fn u64_of_token(t: Seq<char>) -> Result<u64, FromValueError> {
    match int_token_value(t) {
        Some(v) => if 0 <= v <= u64::MAX {
            Ok(v as u64)
        } else {
            Err(FromValueError::ValueTooLarge { target: IntKind::U64 })
        },
        None => Err(FromValueError::ValueTooLarge { target: IntKind::U64 }),
    }
}

/// Reads a numeric token as its sign and magnitude, when it is in plain
/// integer form with magnitude at most `u64::MAX`.
fn token_magnitude(s: &str) -> (r: Option<(bool, Option<u64>)>)
    ensures
        match r {
            None => int_token_value(s@) is None,
            Some((neg, m)) => {
                &&& int_token_value(s@) matches Some(v)
                &&& v == if neg {
                    -digits_val(s@, 1, s@.len() as int)
                } else {
                    digits_val(s@, 0, s@.len() as int)
                }
                &&& match m {
                    Some(mag) => v == if neg {
                        -(mag as int)
                    } else {
                        mag as int
                    },
                    None => if neg {
                        v < -(u64::MAX as int)
                    } else {
                        v > u64::MAX
                    },
                }
            },
        },
{
    let n = s.unicode_len();
    if n == 0 {
        return None;
    }
    let neg = s.get_char(0) == '-';
    let start: usize = if neg {
        1
    } else {
        0
    };
    if n <= start {
        return None;
    }
    let de = digits_end_exec(s, start);
    if de != n {
        proof {
            lemma_digits_end(s@, start as int);
        }
        return None;
    }
    proof {
        lemma_digits_end(s@, start as int);
        lemma_digits_val_nonneg(s@, start as int, n as int);
    }
    let m = digits_to_u64(s, start, n);
    Some((neg, m))
}

/// Converts a numeric token's text to `i64`.
pub fn num_to_i64(s: &str) -> (r: Result<i64, FromValueError>)
    ensures
        r == i64_of_token(s@),
{
    match token_magnitude(s) {
        None => Err(FromValueError::ValueTooLarge { target: IntKind::I64 }),
        Some((neg, m)) => match m {
            None => Err(FromValueError::ValueTooLarge { target: IntKind::I64 }),
            Some(mag) => {
                if neg {
                    if mag <= 9223372036854775807u64 {
                        Ok(-(mag as i64))
                    } else if mag == 9223372036854775808u64 {
                        Ok(i64::MIN)
                    } else {
                        Err(FromValueError::ValueTooLarge { target: IntKind::I64 })
                    }
                } else {
                    if mag <= 9223372036854775807u64 {
                        Ok(mag as i64)
                    } else {
                        Err(FromValueError::ValueTooLarge { target: IntKind::I64 })
                    }
                }
            },
        },
    }
}

/// Converts a numeric token's text to `i32`.
pub fn num_to_i32(s: &str) -> (r: Result<i32, FromValueError>)
    ensures
        r == i32_of_token(s@),
{
    match num_to_i64(s) {
        Err(_) => Err(FromValueError::ValueTooLarge { target: IntKind::I32 }),
        Ok(v) => {
            if -2147483648i64 <= v && v <= 2147483647i64 {
                Ok(v as i32)
            } else {
                Err(FromValueError::ValueTooLarge { target: IntKind::I32 })
            }
        },
    }
}

/// Converts a numeric token's text to `u32`.
pub fn num_to_u32(s: &str) -> (r: Result<u32, FromValueError>)
    ensures
        r == u32_of_token(s@),
{
    match num_to_u64(s) {
        Err(_) => Err(FromValueError::ValueTooLarge { target: IntKind::U32 }),
        Ok(v) => {
            if v <= 4294967295u64 {
                Ok(v as u32)
            } else {
                Err(FromValueError::ValueTooLarge { target: IntKind::U32 })
            }
        },
    }
}

/// Converts a numeric token's text to `u64`.
pub fn num_to_u64(s: &str) -> (r: Result<u64, FromValueError>)
    ensures
        r == u64_of_token(s@),
{
    match token_magnitude(s) {
        None => Err(FromValueError::ValueTooLarge { target: IntKind::U64 }),
        Some((neg, m)) => match m {
            None => Err(FromValueError::ValueTooLarge { target: IntKind::U64 }),
            Some(mag) => {
                if neg {
                    if mag == 0 {
                        Ok(0)
                    } else {
                        Err(FromValueError::ValueTooLarge { target: IntKind::U64 })
                    }
                } else {
                    Ok(mag)
                }
            },
        },
    }
}

/// Extraction of a required boolean at position `i` of the argument list.
pub open spec fn bool_arg_spec(args: Seq<Value>, i: int) -> Result<bool, FromValueError> {
    if i >= args.len() {
        Err(FromValueError::NotEnoughArgs)
    } else {
        match args[i] {
            Value::Bool(b) => Ok(b),
            v => Err(
                FromValueError::UnexpectedArgType {
                    expected: ValueType::Bool,
                    received: value_type_of(v),
                },
            ),
        }
    }
}

/// Extraction of a required string at position `i` of the argument list.
pub open spec fn string_arg_spec(args: Seq<Value>, i: int) -> Result<String, FromValueError> {
    if i >= args.len() {
        Err(FromValueError::NotEnoughArgs)
    } else {
        match args[i] {
            Value::Str(s) => Ok(s),
            v => Err(
                FromValueError::UnexpectedArgType {
                    expected: ValueType::String,
                    received: value_type_of(v),
                },
            ),
        }
    }
}

/// Extraction of a required `i64` at position `i` of the argument list.
pub open spec fn i64_arg_spec(args: Seq<Value>, i: int) -> Result<i64, FromValueError> {
    if i >= args.len() {
        Err(FromValueError::NotEnoughArgs)
    } else {
        match args[i] {
            Value::Num(s) => i64_of_token(s@),
            v => Err(
                FromValueError::UnexpectedArgType {
                    expected: ValueType::Number,
                    received: value_type_of(v),
                },
            ),
        }
    }
}

/// Extraction of a required `i32` at position `i` of the argument list.
pub open spec fn i32_arg_spec(args: Seq<Value>, i: int) -> Result<i32, FromValueError> {
    if i >= args.len() {
        Err(FromValueError::NotEnoughArgs)
    } else {
        match args[i] {
            Value::Num(s) => i32_of_token(s@),
            v => Err(
                FromValueError::UnexpectedArgType {
                    expected: ValueType::Number,
                    received: value_type_of(v),
                },
            ),
        }
    }
}

/// Extraction of a required `u32` at position `i` of the argument list.
pub open spec fn u32_arg_spec(args: Seq<Value>, i: int) -> Result<u32, FromValueError> {
    if i >= args.len() {
        Err(FromValueError::NotEnoughArgs)
    } else {
        match args[i] {
            Value::Num(s) => u32_of_token(s@),
            v => Err(
                FromValueError::UnexpectedArgType {
                    expected: ValueType::Number,
                    received: value_type_of(v),
                },
            ),
        }
    }
}

/// Extraction of a required `u64` at position `i` of the argument list.
pub open spec fn u64_arg_spec(args: Seq<Value>, i: int) -> Result<u64, FromValueError> {
    if i >= args.len() {
        Err(FromValueError::NotEnoughArgs)
    } else {
        match args[i] {
            Value::Num(s) => u64_of_token(s@),
            v => Err(
                FromValueError::UnexpectedArgType {
                    expected: ValueType::Number,
                    received: value_type_of(v),
                },
            ),
        }
    }
}

/// Extraction of an optional value: absence is success, not failure.
pub open spec fn opt_arg_spec<T>(args: Seq<Value>, i: int, req: Result<T, FromValueError>) -> Result<
    Option<T>,
    FromValueError,
> {
    if i >= args.len() {
        Ok(None)
    } else {
        match req {
            Ok(v) => Ok(Some(v)),
            Err(e) => Err(e),
        }
    }
}

/// A required boolean argument.
pub fn bool_from_values(values: &Vec<Value>, index: usize) -> (r: Result<bool, FromValueError>)
    ensures
        r == bool_arg_spec(values@, index as int),
{
    if index >= values.len() {
        Err(FromValueError::NotEnoughArgs)
    } else {
        match &values[index] {
            Value::Bool(b) => Ok(*b),
            v => Err(
                FromValueError::UnexpectedArgType {
                    expected: ValueType::Bool,
                    received: value_tag(v),
                },
            ),
        }
    }
}

/// A required string argument.
pub fn string_from_values(values: &Vec<Value>, index: usize) -> (r: Result<String, FromValueError>)
    ensures
        r == string_arg_spec(values@, index as int),
{
    if index >= values.len() {
        Err(FromValueError::NotEnoughArgs)
    } else {
        match &values[index] {
            Value::Str(s) => Ok(s.clone()),
            v => Err(
                FromValueError::UnexpectedArgType {
                    expected: ValueType::String,
                    received: value_tag(v),
                },
            ),
        }
    }
}

/// A required `i64` argument.
pub fn i64_from_values(values: &Vec<Value>, index: usize) -> (r: Result<i64, FromValueError>)
    ensures
        r == i64_arg_spec(values@, index as int),
{
    if index >= values.len() {
        Err(FromValueError::NotEnoughArgs)
    } else {
        match &values[index] {
            Value::Num(s) => num_to_i64(s.as_str()),
            v => Err(
                FromValueError::UnexpectedArgType {
                    expected: ValueType::Number,
                    received: value_tag(v),
                },
            ),
        }
    }
}

/// A required `i32` argument.
pub fn i32_from_values(values: &Vec<Value>, index: usize) -> (r: Result<i32, FromValueError>)
    ensures
        r == i32_arg_spec(values@, index as int),
{
    if index >= values.len() {
        Err(FromValueError::NotEnoughArgs)
    } else {
        match &values[index] {
            Value::Num(s) => num_to_i32(s.as_str()),
            v => Err(
                FromValueError::UnexpectedArgType {
                    expected: ValueType::Number,
                    received: value_tag(v),
                },
            ),
        }
    }
}

/// A required `u32` argument.
pub fn u32_from_values(values: &Vec<Value>, index: usize) -> (r: Result<u32, FromValueError>)
    ensures
        r == u32_arg_spec(values@, index as int),
{
    if index >= values.len() {
        Err(FromValueError::NotEnoughArgs)
    } else {
        match &values[index] {
            Value::Num(s) => num_to_u32(s.as_str()),
            v => Err(
                FromValueError::UnexpectedArgType {
                    expected: ValueType::Number,
                    received: value_tag(v),
                },
            ),
        }
    }
}

/// A required `u64` argument.
pub fn u64_from_values(values: &Vec<Value>, index: usize) -> (r: Result<u64, FromValueError>)
    ensures
        r == u64_arg_spec(values@, index as int),
{
    if index >= values.len() {
        Err(FromValueError::NotEnoughArgs)
    } else {
        match &values[index] {
            Value::Num(s) => num_to_u64(s.as_str()),
            v => Err(
                FromValueError::UnexpectedArgType {
                    expected: ValueType::Number,
                    received: value_tag(v),
                },
            ),
        }
    }
}

/// An optional boolean argument.
pub fn opt_bool_from_values(values: &Vec<Value>, index: usize) -> (r: Result<
    Option<bool>,
    FromValueError,
>)
    ensures
        r == opt_arg_spec(values@, index as int, bool_arg_spec(values@, index as int)),
{
    if index >= values.len() {
        Ok(None)
    } else {
        match bool_from_values(values, index) {
            Ok(v) => Ok(Some(v)),
            Err(e) => Err(e),
        }
    }
}

/// An optional string argument.
pub fn opt_string_from_values(values: &Vec<Value>, index: usize) -> (r: Result<
    Option<String>,
    FromValueError,
>)
    ensures
        r == opt_arg_spec(values@, index as int, string_arg_spec(values@, index as int)),
{
    if index >= values.len() {
        Ok(None)
    } else {
        match string_from_values(values, index) {
            Ok(v) => Ok(Some(v)),
            Err(e) => Err(e),
        }
    }
}

/// An optional `i64` argument.
pub fn opt_i64_from_values(values: &Vec<Value>, index: usize) -> (r: Result<
    Option<i64>,
    FromValueError,
>)
    ensures
        r == opt_arg_spec(values@, index as int, i64_arg_spec(values@, index as int)),
{
    if index >= values.len() {
        Ok(None)
    } else {
        match i64_from_values(values, index) {
            Ok(v) => Ok(Some(v)),
            Err(e) => Err(e),
        }
    }
}

/// An optional `i32` argument.
pub fn opt_i32_from_values(values: &Vec<Value>, index: usize) -> (r: Result<
    Option<i32>,
    FromValueError,
>)
    ensures
        r == opt_arg_spec(values@, index as int, i32_arg_spec(values@, index as int)),
{
    if index >= values.len() {
        Ok(None)
    } else {
        match i32_from_values(values, index) {
            Ok(v) => Ok(Some(v)),
            Err(e) => Err(e),
        }
    }
}

/// An optional `u32` argument.
pub fn opt_u32_from_values(values: &Vec<Value>, index: usize) -> (r: Result<
    Option<u32>,
    FromValueError,
>)
    ensures
        r == opt_arg_spec(values@, index as int, u32_arg_spec(values@, index as int)),
{
    if index >= values.len() {
        Ok(None)
    } else {
        match u32_from_values(values, index) {
            Ok(v) => Ok(Some(v)),
            Err(e) => Err(e),
        }
    }
}

/// An optional `u64` argument.
pub fn opt_u64_from_values(values: &Vec<Value>, index: usize) -> (r: Result<
    Option<u64>,
    FromValueError,
>)
    ensures
        r == opt_arg_spec(values@, index as int, u64_arg_spec(values@, index as int)),
{
    if index >= values.len() {
        Ok(None)
    } else {
        match u64_from_values(values, index) {
            Ok(v) => Ok(Some(v)),
            Err(e) => Err(e),
        }
    }
}

/// The type tag of a literal value.
pub fn value_tag(v: &Value) -> (r: ValueType)
    ensures
        r == value_type_of(*v),
{
    match v {
        Value::Bool(_) => ValueType::Bool,
        Value::Num(_) => ValueType::Number,
        Value::Str(_) => ValueType::String,
    }
}

} // verus!
