//! The line parser: one raw input line becomes a command name and an ordered
//! sequence of typed literal arguments.
//!
//! Grammar: leading and trailing whitespace is insignificant; the first
//! whitespace-delimited token is the command name (no quoting rules apply to
//! it). Remaining tokens are arguments. A token opening with a double quote
//! is a string literal running to the matching unescaped closing quote, with
//! `\"` and `\\` as the only escapes, and must be followed by whitespace or
//! the end of the line. A bare `true` or `false` is a boolean, a bare token
//! reading as a base-10 number is a numeric literal, and any other bare token
//! is a string literal. Every malformed line is one generic parse error.

use vstd::prelude::*;

use crate::text::is_space;
use crate::value::{is_number_token, Value, ValueView};

verus! {

/// The first position at or after `i` holding a non-whitespace character.
pub open spec fn next_nonspace(s: Seq<char>, i: int) -> int
    decreases s.len() - i when 0 <= i <= s.len()
{
    if i < s.len() && is_space(s[i]) {
        next_nonspace(s, i + 1)
    } else {
        i
    }
}

/// `next_nonspace` yields the end of the whitespace run starting at `i`.
pub proof fn lemma_next_nonspace(s: Seq<char>, i: int)
    requires
        0 <= i <= s.len(),
    ensures
        i <= next_nonspace(s, i) <= s.len(),
        forall|k: int| i <= k < next_nonspace(s, i) ==> is_space(s[k]),
        next_nonspace(s, i) < s.len() ==> !is_space(s[next_nonspace(s, i)]),
    decreases s.len() - i,
{
    if i < s.len() && is_space(s[i]) {
        lemma_next_nonspace(s, i + 1);
    }
}

/// The end of the non-whitespace token starting at `i`.
pub open spec fn token_end(s: Seq<char>, i: int) -> int
    decreases s.len() - i when 0 <= i <= s.len()
{
    if i < s.len() && !is_space(s[i]) {
        token_end(s, i + 1)
    } else {
        i
    }
}

/// `token_end` yields the end of the maximal non-whitespace run at `i`.
pub proof fn lemma_token_end(s: Seq<char>, i: int)
    requires
        0 <= i <= s.len(),
    ensures
        i <= token_end(s, i) <= s.len(),
        forall|k: int| i <= k < token_end(s, i) ==> !is_space(s[k]),
        token_end(s, i) < s.len() ==> is_space(s[token_end(s, i)]),
        i < s.len() && !is_space(s[i]) ==> token_end(s, i) > i,
    decreases s.len() - i,
{
    if i < s.len() && !is_space(s[i]) {
        lemma_token_end(s, i + 1);
    }
}

/// The content of a quoted string whose opening quote stands just before
/// position `i`, together with the position after the closing quote;
/// `None` when the quote is unterminated or an escape is malformed.
pub open spec fn quoted(s: Seq<char>, i: int) -> Option<(Seq<char>, int)>
    decreases s.len() - i when 0 <= i <= s.len()
{
    if i >= s.len() {
        None
    } else if s[i] == '"' {
        Some((Seq::empty(), i + 1))
    } else if s[i] == '\\' {
        if i + 1 < s.len() && (s[i + 1] == '"' || s[i + 1] == '\\') {
            match quoted(s, i + 2) {
                Some((c, j)) => Some((seq![s[i + 1]] + c, j)),
                None => None,
            }
        } else {
            None
        }
    } else {
        match quoted(s, i + 1) {
            Some((c, j)) => Some((seq![s[i]] + c, j)),
            None => None,
        }
    }
}

/// A successful quoted scan always advances past at least the closing quote.
pub proof fn lemma_quoted_bounds(s: Seq<char>, i: int)
    requires
        0 <= i <= s.len(),
    ensures
        quoted(s, i) matches Some(r) ==> i < r.1 <= s.len(),
    decreases s.len() - i,
{
    if i < s.len() {
        if s[i] == '"' {
        } else if s[i] == '\\' {
            if i + 1 < s.len() && (s[i + 1] == '"' || s[i + 1] == '\\') {
                lemma_quoted_bounds(s, i + 2);
            }
        } else {
            lemma_quoted_bounds(s, i + 1);
        }
    }
}

/// The literal a bare token denotes: a case-sensitive `true` or `false` is a
/// boolean, a numeric token is a number, anything else is a string.
pub open spec fn classify(t: Seq<char>) -> ValueView {
    if t == "true"@ {
        ValueView::Bool(true)
    } else if t == "false"@ {
        ValueView::Bool(false)
    } else if is_number_token(t) {
        ValueView::Num(t)
    } else {
        ValueView::Str(t)
    }
}

/// The sequence of argument literals from position `i` to the end of the
/// line; `None` on a malformed quoted token.
pub open spec fn args_from(s: Seq<char>, i: int) -> Option<Seq<ValueView>>
    decreases s.len() - i when 0 <= i <= s.len() via args_from_dec
{
    if i >= s.len() {
        Some(Seq::empty())
    } else if is_space(s[i]) {
        args_from(s, i + 1)
    } else if s[i] == '"' {
        match quoted(s, i + 1) {
            None => None,
            Some((content, j)) => if j < s.len() && !is_space(s[j]) {
                None
            } else {
                match args_from(s, j) {
                    None => None,
                    Some(rest) => Some(seq![ValueView::Str(content)] + rest),
                }
            },
        }
    } else {
        match args_from(s, token_end(s, i)) {
            None => None,
            Some(rest) => Some(seq![classify(s.subrange(i, token_end(s, i)))] + rest),
        }
    }
}

#[via_fn]
proof fn args_from_dec(s: Seq<char>, i: int) {
    if 0 <= i < s.len() {
        if !is_space(s[i]) {
            if s[i] == '"' {
                lemma_quoted_bounds(s, i + 1);
            } else {
                lemma_token_end(s, i);
            }
        }
    }
}

/// Where the command name starts on a line.
pub open spec fn command_start(s: Seq<char>) -> int {
    next_nonspace(s, 0)
}

/// Where the command name ends.
pub open spec fn command_end(s: Seq<char>) -> int {
    token_end(s, command_start(s))
}

/// The command name of a line.
pub open spec fn command_of(s: Seq<char>) -> Seq<char> {
    s.subrange(command_start(s), command_end(s))
}

/// The argument literals of a line, after the command name.
pub open spec fn parsed_args_of(s: Seq<char>) -> Option<Seq<ValueView>> {
    args_from(s, command_end(s))
}

/// A command name with its ordered literal arguments, produced once per
/// accepted input line and consumed exactly once by the dispatcher.
#[derive(Debug, PartialEq)]
pub struct ParsedCommand {
    /// The command name, the line's first whitespace-delimited token.
    pub command: String,
    /// The argument literals in order of appearance.
    pub args: Vec<Value>,
}

/// The single generic parse failure: malformed quoting on the line.
#[derive(Clone, Copy, Debug, PartialEq, Eq, Structural)]
pub struct ParseError;

/// End of the non-whitespace token starting at `from`.
fn token_end_exec(s: &str, from: usize) -> (r: usize)
    requires
        from <= s@.len(),
    ensures
        r == token_end(s@, from as int),
        from <= r <= s@.len(),
{
    let n = s.unicode_len();
    let mut i: usize = from;
    while i < n
        invariant
            n == s@.len(),
            from <= i <= n,
            token_end(s@, from as int) == token_end(s@, i as int),
        decreases n - i,
    {
        if crate::text::space_char(s.get_char(i)) {
            return i;
        }
        i = i + 1;
    }
    i
}

/// Whether a bare token reads as a base-10 number.
fn is_number(tok: &str) -> (r: bool)
    ensures
        r == is_number_token(tok@),
{
    let n = tok.unicode_len();
    let i1: usize = if n > 0 && tok.get_char(0) == '-' {
        1
    } else {
        0
    };
    let i2 = crate::value::digits_end_exec(tok, i1);
    if i2 <= i1 {
        return false;
    }
    let i3: usize = if i2 < n && tok.get_char(i2) == '.' {
        let f = crate::value::digits_end_exec(tok, i2 + 1);
        if f > i2 + 1 {
            f
        } else {
            return false;
        }
    } else {
        i2
    };
    proof {
        assert(i3 as int == crate::value::frac_end(tok@, i2 as int));
    }
    let i4: usize = if i3 < n && (tok.get_char(i3) == 'e' || tok.get_char(i3) == 'E') {
        let st: usize = if i3 + 1 < n && (tok.get_char(i3 + 1) == '+' || tok.get_char(i3 + 1)
            == '-') {
            i3 + 2
        } else {
            i3 + 1
        };
        if st > n {
            return false;
        }
        let e = crate::value::digits_end_exec(tok, st);
        if e > st {
            e
        } else {
            return false;
        }
    } else {
        i3
    };
    proof {
        assert(i4 as int == crate::value::exp_end(tok@, i3 as int));
    }
    i4 == n
}

/// Scans a quoted string literal whose opening quote stands just before
/// `start`, unescaping `\"` and `\\`.
fn scan_quoted(line: &str, start: usize) -> (r: Result<(String, usize), ParseError>)
    requires
        start <= line@.len(),
    ensures
        match r {
            Ok(p) => {
                &&& quoted(line@, start as int) == Some((p.0@, p.1 as int))
                &&& start < p.1 <= line@.len()
            },
            Err(_) => quoted(line@, start as int) is None,
        },
{
    let n = line.unicode_len();
    let mut content = String::new();
    let mut j: usize = start;
    proof {
        if let Some((c2, _k)) = quoted(line@, start as int) {
            assert(Seq::<char>::empty() + c2 =~= c2);
        }
    }
    loop
        invariant
            n == line@.len(),
            start <= j <= n,
            quoted(line@, start as int) == quoted_ext(content@, quoted(line@, j as int)),
        decreases n - j,
    {
        if j >= n {
            return Err(ParseError);
        }
        let c = line.get_char(j);
        if c == '"' {
            proof {
                assert(content@ + Seq::<char>::empty() =~= content@);
                lemma_quoted_bounds(line@, start as int);
            }
            return Ok((content, j + 1));
        } else if c == '\\' {
            if j + 1 < n {
                let c2 = line.get_char(j + 1);
                if c2 == '"' || c2 == '\\' {
                    proof {
                        if let Some((rest, _k)) = quoted(line@, j + 2) {
                            assert(content@ + (seq![c2] + rest) =~= content@.push(c2) + rest);
                        }
                    }
                    crate::text::push_char(&mut content, c2);
                    j = j + 2;
                } else {
                    return Err(ParseError);
                }
            } else {
                return Err(ParseError);
            }
        } else {
            proof {
                if let Some((rest, _k)) = quoted(line@, j + 1) {
                    assert(content@ + (seq![c] + rest) =~= content@.push(c) + rest);
                }
            }
            crate::text::push_char(&mut content, c);
            j = j + 1;
        }
    }
}

/// Prefixing the content of a quoted-scan outcome.
pub open spec fn quoted_ext(p: Seq<char>, q: Option<(Seq<char>, int)>) -> Option<
    (Seq<char>, int),
> {
    match q {
        None => None,
        Some((c, j)) => Some((p + c, j)),
    }
}

/// Parses one raw input line into a command name and its argument literals.
///
/// The caller handles an all-whitespace line as a no-op before parsing, so
/// the line holds at least one non-whitespace character here.
pub fn parse(line: &str) -> (r: Result<ParsedCommand, ParseError>)
    requires
        !crate::text::is_blank(line@),
    ensures
        match parsed_args_of(line@) {
            Some(vs) => {
                &&& r matches Ok(pc)
                &&& pc.command@ == command_of(line@)
                &&& pc.args.deep_view() == vs
            },
            None => r is Err,
        },
{
    let n = line.unicode_len();
    let mut cs: usize = 0;
    while cs < n && crate::text::space_char(line.get_char(cs))
        invariant
            n == line@.len(),
            0 <= cs <= n,
            next_nonspace(line@, 0) == next_nonspace(line@, cs as int),
        decreases n - cs,
    {
        cs = cs + 1;
    }
    proof {
        assert(command_start(line@) == cs as int);
        if cs as int == n as int {
            assert(forall|k: int| 0 <= k < line@.len() ==> is_space(line@[k])) by {
                lemma_next_nonspace(line@, 0);
            }
            assert(false);
        }
    }
    let ce = token_end_exec(line, cs);
    let name = line.substring_char(cs, ce).to_owned();
    let ghost s = line@;
    let mut out: Vec<Value> = Vec::new();
    let mut i: usize = ce;
    proof {
        if let Some(full) = args_from(s, ce as int) {
            assert(Seq::<ValueView>::empty() + full =~= full);
            assert(out.deep_view() =~= Seq::<ValueView>::empty());
        }
    }
    loop
        invariant
            n == s.len(),
            s == line@,
            0 <= i <= n,
            ce == command_end(s),
            name@ == command_of(s),
            args_from(s, ce as int) is Some <==> args_from(s, i as int) is Some,
            (args_from(s, ce as int) matches Some(full) ==> args_from(s, i as int) matches Some(
                rest,
            ) && full == out.deep_view() + rest),
        decreases n - i,
    {
        if i >= n {
            proof {
                if let Some(full) = args_from(s, ce as int) {
                    assert(full =~= out.deep_view());
                }
            }
            return Ok(ParsedCommand { command: name, args: out });
        }
        let c = line.get_char(i);
        if crate::text::space_char(c) {
            i = i + 1;
        } else if c == '"' {
            match scan_quoted(line, i + 1) {
                Err(e) => {
                    return Err(e);
                },
                Ok((content, j)) => {
                    if j < n && !crate::text::space_char(line.get_char(j)) {
                        return Err(ParseError);
                    }
                    let ghost prev = out.deep_view();
                    let ghost cv = content@;
                    out.push(Value::Str(content));
                    proof {
                        assert(out.deep_view() =~= prev.push(ValueView::Str(cv)));
                        if let Some(full) = args_from(s, ce as int) {
                            if let Some(rest) = args_from(s, i as int) {
                                if let Some(tail) = args_from(s, j as int) {
                                    assert(rest =~= seq![ValueView::Str(cv)] + tail);
                                    assert(prev.push(ValueView::Str(cv)) + tail =~= prev + rest);
                                }
                            }
                        }
                    }
                    i = j;
                },
            }
        } else {
            let e = token_end_exec(line, i);
            proof {
                lemma_token_end(s, i as int);
            }
            let tok = line.substring_char(i, e);
            let v: Value = if crate::text::str_eq(tok, "true") {
                Value::Bool(true)
            } else if crate::text::str_eq(tok, "false") {
                Value::Bool(false)
            } else if is_number(tok) {
                Value::Num(tok.to_owned())
            } else {
                Value::Str(tok.to_owned())
            };
            let ghost prev = out.deep_view();
            let ghost vv = v.deep_view();
            proof {
                assert(vv == classify(s.subrange(i as int, e as int)));
            }
            out.push(v);
            proof {
                assert(out.deep_view() =~= prev.push(vv));
                if let Some(full) = args_from(s, ce as int) {
                    if let Some(rest) = args_from(s, i as int) {
                        if let Some(tail) = args_from(s, e as int) {
                            assert(rest =~= seq![vv] + tail);
                            assert(prev.push(vv) + tail =~= prev + rest);
                        }
                    }
                }
            }
            i = e;
        }
    }
}

/// The escaped form of one character inside a quoted string literal.
pub open spec fn escape_char(c: char) -> Seq<char> {
    if c == '"' || c == '\\' {
        seq!['\\', c]
    } else {
        seq![c]
    }
}

/// The escaped form of a string's characters inside a quoted literal.
pub open spec fn escape_body(s: Seq<char>) -> Seq<char>
    decreases s.len(),
{
    if s.len() == 0 {
        Seq::empty()
    } else {
        escape_char(s[0]) + escape_body(s.drop_first())
    }
}

/// A quoted scan over the escaped form of `s` recovers `s` exactly and stops
/// just after the closing quote.
proof fn lemma_quoted_escape(t: Seq<char>, i: int, s: Seq<char>)
    requires
        0 <= i,
        i + escape_body(s).len() + 1 <= t.len(),
        t.subrange(i, i + escape_body(s).len() as int) == escape_body(s),
        t[i + escape_body(s).len() as int] == '"',
    ensures
        quoted(t, i) == Some((s, i + escape_body(s).len() + 1)),
    decreases s.len(),
{
    let eb = escape_body(s);
    if s.len() == 0 {
        assert(t[i] == '"');
    } else {
        let c = s[0];
        let rest = s.drop_first();
        let ebr = escape_body(rest);
        lemma_escape_body_shape(s);
        if c == '"' || c == '\\' {
            assert(t[i] == eb[0]) by {
                assert(t.subrange(i, i + eb.len() as int)[0] == t[i]);
            }
            assert(eb[0] == '\\');
            assert(t[i + 1] == eb[1]) by {
                assert(t.subrange(i, i + eb.len() as int)[1] == t[i + 1]);
            }
            assert(eb[1] == c);
            assert(t.subrange(i + 2, i + 2 + ebr.len() as int) =~= ebr) by {
                assert(forall|k: int|
                    0 <= k < ebr.len() ==> #[trigger] t.subrange(i + 2, i + 2 + ebr.len() as int)[k]
                        == t.subrange(i, i + eb.len() as int)[k + 2]);
            }
            assert(t[i + 2 + ebr.len() as int] == '"');
            lemma_quoted_escape(t, i + 2, rest);
            assert(seq![t[i + 1]] + rest =~= s);
        } else {
            assert(t[i] == eb[0]) by {
                assert(t.subrange(i, i + eb.len() as int)[0] == t[i]);
            }
            assert(eb[0] == c);
            assert(t.subrange(i + 1, i + 1 + ebr.len() as int) =~= ebr) by {
                assert(forall|k: int|
                    0 <= k < ebr.len() ==> #[trigger] t.subrange(i + 1, i + 1 + ebr.len() as int)[k]
                        == t.subrange(i, i + eb.len() as int)[k + 1]);
            }
            assert(t[i + 1 + ebr.len() as int] == '"');
            lemma_quoted_escape(t, i + 1, rest);
            assert(seq![t[i]] + rest =~= s);
        }
    }
}

/// The escaped body starts with the escape of the first character.
proof fn lemma_escape_body_shape(s: Seq<char>)
    requires
        s.len() > 0,
    ensures
        escape_body(s).len() == escape_char(s[0]).len() + escape_body(s.drop_first()).len(),
        escape_body(s)[0] == escape_char(s[0])[0],
        escape_char(s[0]).len() == 2 ==> escape_body(s)[1] == escape_char(s[0])[1],
        forall|k: int|
            0 <= k < escape_body(s.drop_first()).len() ==> escape_body(s)[k + escape_char(
                s[0],
            ).len()] == escape_body(s.drop_first())[k],
{
}

/// Round-trip quoting: for any string, scanning the quoted, escaped form of
/// that string as a single argument token recovers the original string
/// exactly.
pub proof fn lemma_round_trip_quoting(s: Seq<char>)
    ensures
        args_from(seq!['"'] + escape_body(s) + seq!['"'], 0) == Some(seq![ValueView::Str(s)]),
{
    let line = seq!['"'] + escape_body(s) + seq!['"'];
    let eb = escape_body(s);
    assert(line.len() == eb.len() + 2);
    assert(line[0] == '"');
    assert(!is_space('"'));
    assert(line.subrange(1, 1 + eb.len() as int) =~= eb);
    assert(line[1 + eb.len() as int] == '"');
    lemma_quoted_escape(line, 1, s);
    assert(quoted(line, 1) == Some((s, line.len() as int)));
    assert(args_from(line, line.len() as int) == Some(Seq::<ValueView>::empty()));
    assert(seq![ValueView::Str(s)] + Seq::<ValueView>::empty() =~= seq![ValueView::Str(s)]);
}

} // verus!
