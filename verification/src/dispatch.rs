//! The argument binder and dispatcher.
//!
//! Each command type carries a name, a typed conversion from literal
//! arguments, and optional help metadata. Per evaluation cycle, a binder
//! scans the entered-command events in arrival order, reacts to the first
//! whose name matches, converts the arguments, and either exposes the typed
//! command for at-most-once consumption or emits the failure's display text
//! as a reply — followed by the rendered help, except for numeric-range
//! failures, which are considered self-explanatory.

use vstd::prelude::*;

use crate::help::{help_text_spec, CommandInfo, CommandInfoView};
use crate::value::{error_message_spec, FromValueError, Value};

verus! {

/// A parsed raw line, entered as an event: a command name and its literal
/// arguments.
#[derive(Debug, PartialEq)]
pub struct TerminalCommandEntered {
    /// The command name.
    pub command: String,
    /// The raw parsed arguments.
    pub args: Vec<Value>,
}

/// A reply event: one line to print to the scrollback.
#[derive(Debug, PartialEq)]
pub struct PrintTerminalLine {
    /// The line to print.
    pub line: String,
}

impl View for PrintTerminalLine {
    type V = Seq<char>;

    open spec fn view(&self) -> Seq<char> {
        self.line@
    }
}

impl DeepView for PrintTerminalLine {
    type V = Seq<char>;

    open spec fn deep_view(&self) -> Seq<char> {
        self.line@
    }
}

impl Clone for PrintTerminalLine {
    /// An equal copy of the reply event.
    fn clone(&self) -> (r: PrintTerminalLine)
        ensures
            r == *self,
    {
        PrintTerminalLine { line: self.line.clone() }
    }
}

impl PrintTerminalLine {
    /// A new line to print.
    pub fn new(line: String) -> (r: PrintTerminalLine)
        ensures
            r.line == line,
    {
        PrintTerminalLine { line }
    }
}

/// A command's name, under which it is entered and registered.
pub trait CommandName {
    /// The name as a character sequence.
    spec fn name_spec() -> Seq<char>;

    /// The name.
    fn command_name() -> (s: &'static str)
        ensures
            s@ == Self::name_spec(),
    ;
}

/// A command's typed conversion from the raw argument literals.
pub trait CommandArgs: Sized {
    /// What the conversion yields on any argument list.
    spec fn from_values_spec(values: Seq<Value>) -> Result<Self, FromValueError>;

    /// Converts the raw argument literals to the typed command.
    fn from_values(values: &Vec<Value>) -> (r: Result<Self, FromValueError>)
        ensures
            r == Self::from_values_spec(values@),
    ;
}

/// A command's registered help metadata, if any.
pub trait CommandHelp: CommandName {
    /// The view of the help metadata.
    spec fn command_help_view() -> Option<CommandInfoView>;

    /// The help metadata.
    fn command_help() -> (r: Option<CommandInfo>)
        ensures
            r.deep_view() == Self::command_help_view(),
    ;
}

/// The position of the first entered event at or after `i` carrying `name`.
pub open spec fn first_match_from(
    evs: Seq<TerminalCommandEntered>,
    name: Seq<char>,
    i: int,
) -> Option<int>
    decreases evs.len() - i when 0 <= i <= evs.len()
{
    if i >= evs.len() {
        None
    } else if evs[i].command@ == name {
        Some(i)
    } else {
        first_match_from(evs, name, i + 1)
    }
}

/// The position of the first entered event carrying `name`.
pub open spec fn first_match(evs: Seq<TerminalCommandEntered>, name: Seq<char>) -> Option<int> {
    first_match_from(evs, name, 0)
}

/// The replies a failed bind emits: the failure's display text, followed by
/// the rendered help for every failure but a numeric-range one.
pub open spec fn error_reply_lines(e: FromValueError, help: Option<CommandInfoView>) -> Seq<
    Seq<char>,
> {
    let first = seq![error_message_spec(e)];
    match e {
        FromValueError::ValueTooLarge { .. } => first,
        _ => match help {
            Some(info) => first + seq![help_text_spec(info)],
            None => first,
        },
    }
}

/// A captured command for one evaluation cycle: the typed value when the
/// bind succeeded, and the replies to print.
#[derive(Debug)]
pub struct TerminalCommand<T> {
    command: Option<T>,
    lines: Vec<PrintTerminalLine>,
}

/// The binder's consuming accessor in the model: what `take` returns, and
/// the slot it leaves behind.
pub open spec fn take_spec<T>(command: Option<T>) -> (Option<T>, Option<T>) {
    (command, None)
}

/// At-most-once consumption: whatever the slot held, a second take after a
/// first one yields nothing.
pub proof fn lemma_take_at_most_once<T>(command: Option<T>)
    ensures
        take_spec::<T>(take_spec::<T>(command).1).0 is None,
{
}

impl<T> TerminalCommand<T> {
    /// The typed command still waiting to be consumed this cycle.
    pub closed spec fn spec_command(&self) -> Option<T> {
        self.command
    }

    /// The replies queued so far, as character sequences.
    pub closed spec fn spec_lines(&self) -> Seq<Seq<char>> {
        self.lines.deep_view()
    }

    /// Returns the typed command if it was entered this cycle and its
    /// arguments were valid. A second call in the same cycle yields `None`
    /// regardless: consumption is at most once.
    pub fn take(&mut self) -> (r: Option<T>)
        ensures
            (r, final(self).spec_command()) == take_spec::<T>(old(self).spec_command()),
            final(self).spec_lines() == old(self).spec_lines(),
    {
        self.command.take()
    }

    /// Queues a reply line.
    pub fn reply(&mut self, msg: &str)
        ensures
            final(self).spec_command() == old(self).spec_command(),
            final(self).spec_lines() == old(self).spec_lines().push(msg@),
    {
        let ghost pre = self.lines.deep_view();
        self.lines.push(PrintTerminalLine { line: msg.to_owned() });
        proof {
            assert(self.lines.deep_view() =~= pre.push(msg@));
        }
    }

    /// Queues `[ok]`.
    pub fn ok(&mut self)
        ensures
            final(self).spec_command() == old(self).spec_command(),
            final(self).spec_lines() == old(self).spec_lines().push("[ok]"@),
    {
        self.reply("[ok]");
    }

    /// Queues `[failed]`.
    pub fn failed(&mut self)
        ensures
            final(self).spec_command() == old(self).spec_command(),
            final(self).spec_lines() == old(self).spec_lines().push("[failed]"@),
    {
        self.reply("[failed]");
    }

    /// Queues a reply line followed by `[ok]`.
    pub fn reply_ok(&mut self, msg: &str)
        ensures
            final(self).spec_command() == old(self).spec_command(),
            final(self).spec_lines() == old(self).spec_lines().push(msg@).push("[ok]"@),
    {
        self.reply(msg);
        self.ok();
    }

    /// Queues a reply line followed by `[failed]`.
    pub fn reply_failed(&mut self, msg: &str)
        ensures
            final(self).spec_command() == old(self).spec_command(),
            final(self).spec_lines() == old(self).spec_lines().push(msg@).push("[failed]"@),
    {
        self.reply(msg);
        self.failed();
    }

    /// The queued replies, for the host to drain into the scrollback.
    pub fn lines(&self) -> (r: &Vec<PrintTerminalLine>)
        ensures
            r.deep_view() == self.spec_lines(),
    {
        &self.lines
    }
}

/// The first entered event carrying `name`, in arrival order.
fn find_entered(events: &Vec<TerminalCommandEntered>, name: &str) -> (r: Option<usize>)
    ensures
        match r {
            Some(i) => i < events@.len() && first_match(events@, name@) == Some(i as int),
            None => first_match(events@, name@) is None,
        },
{
    let n = events.len();
    let mut j: usize = 0;
    while j < n
        invariant
            n == events@.len(),
            0 <= j <= n,
            first_match(events@, name@) == first_match_from(events@, name@, j as int),
        decreases n - j,
    {
        if crate::text::str_eq(events[j].command.as_str(), name) {
            return Some(j);
        }
        j = j + 1;
    }
    None
}

/// Scans the entered-command events of one cycle and captures the first
/// whose name is `T`'s: on valid arguments the typed command is exposed for
/// at-most-once consumption; on a conversion failure the failure's display
/// text is queued as a reply, followed by the rendered help for every
/// failure but a numeric-range one. Events for other names are left alone.
pub fn catch_command<T: CommandArgs + CommandHelp>(events: &Vec<TerminalCommandEntered>) -> (tc:
    TerminalCommand<T>)
    ensures
        match first_match(events@, T::name_spec()) {
            None => tc.spec_command() is None && tc.spec_lines() == Seq::<Seq<char>>::empty(),
            Some(i) => match T::from_values_spec(events@[i].args@) {
                Ok(v) => tc.spec_command() == Some(v) && tc.spec_lines() == Seq::<
                    Seq<char>,
                >::empty(),
                Err(e) => tc.spec_command() is None && tc.spec_lines() == error_reply_lines(
                    e,
                    T::command_help_view(),
                ),
            },
        },
{
    let name = T::command_name();
    let found = find_entered(events, name);
    match found {
        None => {
            let tc = TerminalCommand { command: None, lines: Vec::new() };
            proof {
                assert(tc.spec_lines() =~= Seq::<Seq<char>>::empty());
            }
            tc
        },
        Some(i) => {
            match T::from_values(&events[i].args) {
                Ok(v) => {
                    let tc = TerminalCommand { command: Some(v), lines: Vec::new() };
                    proof {
                        assert(tc.spec_lines() =~= Seq::<Seq<char>>::empty());
                    }
                    tc
                },
                Err(e) => {
                    let mut lines: Vec<PrintTerminalLine> = Vec::new();
                    lines.push(PrintTerminalLine::new(e.message()));
                    let with_help = match &e {
                        FromValueError::ValueTooLarge { .. } => false,
                        _ => true,
                    };
                    if with_help {
                        if let Some(info) = T::command_help() {
                            lines.push(PrintTerminalLine::new(info.help_text()));
                            proof {
                                assert(lines.deep_view() =~= seq![error_message_spec(e)] + seq![
                                    help_text_spec(info@),
                                ]);
                            }
                        } else {
                            proof {
                                assert(lines.deep_view() =~= seq![error_message_spec(e)]);
                            }
                        }
                    } else {
                        proof {
                            assert(lines.deep_view() =~= seq![error_message_spec(e)]);
                        }
                    }
                    let tc = TerminalCommand { command: None, lines };
                    proof {
                        assert(tc.spec_lines() == error_reply_lines(e, T::command_help_view()));
                    }
                    tc
                },
            }
        },
    }
}

} // verus!
