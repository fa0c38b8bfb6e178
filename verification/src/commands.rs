//! The built-in commands and an example user command.
//!
//! `clear` empties the scrollback, `exit` asks the host to quit, and `help`
//! prints a single command's usage or the alphabetized listing of every
//! registered command. `log`, the stock example of a user command, replies
//! with its message a requested number of times.

use vstd::prelude::*;

use crate::dispatch::{CommandArgs, CommandHelp, CommandName, TerminalCommand};
use crate::help::{help_text_spec, ArgInfoView, CommandArgInfo, CommandInfo, CommandInfoView};
use crate::registry::{lookup_spec, RegModel, TerminalConfiguration};
use crate::session::TerminalState;
use crate::text::spaces;
use crate::value::{
    i64_arg_spec, opt_arg_spec, opt_i64_from_values, opt_string_from_values, string_arg_spec,
    string_from_values, FromValueError, Value,
};

verus! {

/// Clears the terminal.
#[derive(Debug, PartialEq)]
pub struct ClearCommand;

impl CommandName for ClearCommand {
    open spec fn name_spec() -> Seq<char> {
        "clear"@
    }

    fn command_name() -> (s: &'static str) {
        "clear"
    }
}

impl CommandArgs for ClearCommand {
    open spec fn from_values_spec(values: Seq<Value>) -> Result<ClearCommand, FromValueError> {
        Ok(ClearCommand)
    }

    fn from_values(values: &Vec<Value>) -> (r: Result<ClearCommand, FromValueError>) {
        Ok(ClearCommand)
    }
}

impl CommandHelp for ClearCommand {
    open spec fn command_help_view() -> Option<CommandInfoView> {
        Some(
            CommandInfoView {
                name: "clear"@,
                description: Some("Clears the terminal"@),
                args: Seq::empty(),
            },
        )
    }

    fn command_help() -> (r: Option<CommandInfo>) {
        let info = CommandInfo {
            name: String::from_str("clear"),
            description: Some(String::from_str("Clears the terminal")),
            args: Vec::new(),
        };
        proof {
            assert(info@.args =~= Seq::<ArgInfoView>::empty());
            assert(info@ =~= Self::command_help_view()->0);
        }
        Some(info)
    }
}

/// Exits the app.
#[derive(Debug, PartialEq)]
pub struct ExitCommand;

impl CommandName for ExitCommand {
    open spec fn name_spec() -> Seq<char> {
        "exit"@
    }

    fn command_name() -> (s: &'static str) {
        "exit"
    }
}

impl CommandArgs for ExitCommand {
    open spec fn from_values_spec(values: Seq<Value>) -> Result<ExitCommand, FromValueError> {
        Ok(ExitCommand)
    }

    fn from_values(values: &Vec<Value>) -> (r: Result<ExitCommand, FromValueError>) {
        Ok(ExitCommand)
    }
}

impl CommandHelp for ExitCommand {
    open spec fn command_help_view() -> Option<CommandInfoView> {
        Some(
            CommandInfoView {
                name: "exit"@,
                description: Some("Exits the app"@),
                args: Seq::empty(),
            },
        )
    }

    fn command_help() -> (r: Option<CommandInfo>) {
        let info = CommandInfo {
            name: String::from_str("exit"),
            description: Some(String::from_str("Exits the app")),
            args: Vec::new(),
        };
        proof {
            assert(info@.args =~= Seq::<ArgInfoView>::empty());
            assert(info@ =~= Self::command_help_view()->0);
        }
        Some(info)
    }
}

/// Prints a command's usage, or lists the available commands.
#[derive(Debug, PartialEq)]
pub struct HelpCommand {
    /// The command to print help for; absent for the full listing.
    pub command: Option<String>,
}

impl CommandName for HelpCommand {
    open spec fn name_spec() -> Seq<char> {
        "help"@
    }

    fn command_name() -> (s: &'static str) {
        "help"
    }
}

impl CommandArgs for HelpCommand {
    open spec fn from_values_spec(values: Seq<Value>) -> Result<HelpCommand, FromValueError> {
        match opt_arg_spec(values, 0, string_arg_spec(values, 0)) {
            Ok(command) => Ok(HelpCommand { command }),
            Err(e) => Err(e),
        }
    }

    fn from_values(values: &Vec<Value>) -> (r: Result<HelpCommand, FromValueError>) {
        match opt_string_from_values(values, 0) {
            Ok(command) => Ok(HelpCommand { command }),
            Err(e) => Err(e),
        }
    }
}

impl CommandHelp for HelpCommand {
    open spec fn command_help_view() -> Option<CommandInfoView> {
        Some(
            CommandInfoView {
                name: "help"@,
                description: Some("Prints available arguments and usage"@),
                args: seq![
                    ArgInfoView {
                        name: "command"@,
                        ty: "string"@,
                        description: Some("Help for a given command"@),
                        optional: true,
                    },
                ],
            },
        )
    }

    fn command_help() -> (r: Option<CommandInfo>) {
        let mut args: Vec<CommandArgInfo> = Vec::new();
        args.push(
            CommandArgInfo {
                name: String::from_str("command"),
                ty: String::from_str("string"),
                description: Some(String::from_str("Help for a given command")),
                optional: true,
            },
        );
        let info = CommandInfo {
            name: String::from_str("help"),
            description: Some(String::from_str("Prints available arguments and usage")),
            args,
        };
        proof {
            assert(info@.args =~= Self::command_help_view()->0.args);
            assert(info@ =~= Self::command_help_view()->0);
        }
        Some(info)
    }
}

/// Prints given arguments to the terminal.
#[derive(Debug, PartialEq)]
pub struct LogCommand {
    /// Message to print.
    pub msg: String,
    /// Number of times to print the message.
    pub num: Option<i64>,
}

impl CommandName for LogCommand {
    open spec fn name_spec() -> Seq<char> {
        "log"@
    }

    fn command_name() -> (s: &'static str) {
        "log"
    }
}

impl CommandArgs for LogCommand {
    open spec fn from_values_spec(values: Seq<Value>) -> Result<LogCommand, FromValueError> {
        match string_arg_spec(values, 0) {
            Err(e) => Err(e),
            Ok(msg) => match opt_arg_spec(values, 1, i64_arg_spec(values, 1)) {
                Err(e) => Err(e),
                Ok(num) => Ok(LogCommand { msg, num }),
            },
        }
    }

    fn from_values(values: &Vec<Value>) -> (r: Result<LogCommand, FromValueError>) {
        match string_from_values(values, 0) {
            Err(e) => Err(e),
            Ok(msg) => match opt_i64_from_values(values, 1) {
                Err(e) => Err(e),
                Ok(num) => Ok(LogCommand { msg, num }),
            },
        }
    }
}

impl CommandHelp for LogCommand {
    open spec fn command_help_view() -> Option<CommandInfoView> {
        Some(
            CommandInfoView {
                name: "log"@,
                description: Some("Prints given arguments to the terminal"@),
                args: seq![
                    ArgInfoView {
                        name: "msg"@,
                        ty: "string"@,
                        description: Some("Message to print"@),
                        optional: false,
                    },
                    ArgInfoView {
                        name: "num"@,
                        ty: "number"@,
                        description: Some("Number of times to print message"@),
                        optional: true,
                    },
                ],
            },
        )
    }

    fn command_help() -> (r: Option<CommandInfo>) {
        let mut args: Vec<CommandArgInfo> = Vec::new();
        args.push(
            CommandArgInfo {
                name: String::from_str("msg"),
                ty: String::from_str("string"),
                description: Some(String::from_str("Message to print")),
                optional: false,
            },
        );
        args.push(
            CommandArgInfo {
                name: String::from_str("num"),
                ty: String::from_str("number"),
                description: Some(String::from_str("Number of times to print message")),
                optional: true,
            },
        );
        let info = CommandInfo {
            name: String::from_str("log"),
            description: Some(String::from_str("Prints given arguments to the terminal")),
            args,
        };
        proof {
            assert(info@.args =~= Self::command_help_view()->0.args);
            assert(info@ =~= Self::command_help_view()->0);
        }
        Some(info)
    }
}

/// The clear command's handler: a captured `clear` empties the scrollback.
pub fn clear_command(clear: &mut TerminalCommand<ClearCommand>, state: &mut TerminalState)
    requires
        old(state).wf(),
    ensures
        final(state).wf(),
        final(clear).spec_command() is None,
        final(clear).spec_lines() == old(clear).spec_lines(),
        old(clear).spec_command() is Some ==> {
            &&& final(state).scrollback.deep_view() == Seq::<Seq<char>>::empty()
            &&& final(state).buf == old(state).buf
            &&& final(state).history == old(state).history
            &&& final(state).history_index == old(state).history_index
        },
        old(clear).spec_command() is None ==> *final(state) == *old(state),
{
    if clear.take().is_some() {
        state.clear_scrollback();
    }
}

/// The exit command's handler: a captured `exit` replies `[ok]` and asks
/// the host to quit.
pub fn exit_command(exit: &mut TerminalCommand<ExitCommand>) -> (quit: bool)
    ensures
        quit == (old(exit).spec_command() is Some),
        final(exit).spec_command() is None,
        quit ==> final(exit).spec_lines() == old(exit).spec_lines().push("[ok]"@),
        !quit ==> final(exit).spec_lines() == old(exit).spec_lines(),
{
    if exit.take().is_some() {
        exit.ok();
        true
    } else {
        false
    }
}

/// The log command's handler: a captured `log` replies its message `num`
/// times (once when `num` is absent, never when it is negative), then
/// `[ok]`.
pub fn log_command(log: &mut TerminalCommand<LogCommand>)
    ensures
        final(log).spec_command() is None,
        old(log).spec_command() is None ==> final(log).spec_lines() == old(log).spec_lines(),
        old(log).spec_command() matches Some(cmd) ==> ({
            let reps = match cmd.num {
                Some(k) => if k > 0 {
                    k as int
                } else {
                    0
                },
                None => 1,
            };
            final(log).spec_lines() == old(log).spec_lines() + Seq::new(
                reps as nat,
                |x: int| cmd.msg@,
            ).push("[ok]"@)
        }),
{
    if let Some(cmd) = log.take() {
        let repeat: i64 = match cmd.num {
            Some(k) => k,
            None => 1,
        };
        let ghost pre = log.spec_lines();
        let mut c: i64 = 0;
        proof {
            assert(pre + Seq::new(0, |x: int| cmd.msg@) =~= pre);
        }
        while c < repeat
            invariant
                0 <= c,
                repeat > 0 ==> c <= repeat,
                repeat <= 0 ==> c == 0,
                log.spec_command() is None,
                log.spec_lines() == pre + Seq::new(c as nat, |x: int| cmd.msg@),
            decreases repeat - c,
        {
            log.reply(cmd.msg.as_str());
            proof {
                assert(Seq::new((c + 1) as nat, |x: int| cmd.msg@) =~= Seq::new(
                    c as nat,
                    |x: int| cmd.msg@,
                ).push(cmd.msg@));
                assert(log.spec_lines() =~= pre + Seq::new((c + 1) as nat, |x: int| cmd.msg@));
            }
            c = c + 1;
        }
        log.ok();
        proof {
            assert(log.spec_lines() =~= pre + Seq::new(c as nat, |x: int| cmd.msg@).push("[ok]"@));
        }
    }
}

/// The help command's single reply for a named command: its rendered help,
/// or why none is shown.
pub open spec fn help_reply(m: RegModel, name: Seq<char>) -> Seq<char> {
    match lookup_spec(m, name) {
        Some(Some(info)) => help_text_spec(info),
        Some(None) => "Help not available for command '"@ + name + "'"@,
        None => "Command '"@ + name + "' does not exist"@,
    }
}

/// The widest registered command name.
pub open spec fn max_cmd_name_len(m: RegModel) -> nat
    decreases m.len(),
{
    if m.len() == 0 {
        0
    } else {
        crate::help::max_nat(m[0].0.len(), max_cmd_name_len(m.drop_first()))
    }
}

/// Every command name fits in the listing's name column.
proof fn lemma_max_cmd_bound(m: RegModel)
    ensures
        forall|k: int| 0 <= k < m.len() ==> (#[trigger] m[k]).0.len() <= max_cmd_name_len(m),
    decreases m.len(),
{
    if m.len() > 0 {
        lemma_max_cmd_bound(m.drop_first());
        assert forall|k: int| 0 <= k < m.len() implies (#[trigger] m[k]).0.len()
            <= max_cmd_name_len(m) by {
            if k >= 1 {
                assert(m[k] == m.drop_first()[k - 1]);
            }
        }
    }
}

/// One row of the command listing: the padded name, then the description
/// when one was registered.
pub open spec fn listing_row(e: (Seq<char>, Option<CommandInfoView>), w: nat) -> Seq<char> {
    "  "@ + e.0 + spaces((w - e.0.len()) as nat) + (match e.1 {
        Some(info) => match info.description {
            Some(d) => " - "@ + d,
            None => Seq::empty(),
        },
        None => Seq::empty(),
    })
}

/// The listing rows from entry `i` on, one reply line per entry.
pub open spec fn listing_rows_from(m: RegModel, w: nat, i: int) -> Seq<Seq<char>>
    decreases m.len() - i when 0 <= i <= m.len()
{
    if i >= m.len() {
        Seq::empty()
    } else {
        seq![listing_row(m[i], w)] + listing_rows_from(m, w, i + 1)
    }
}

/// Every reply of a no-argument help invocation: the header, one row per
/// registered command in alphabetized order, and a closing empty line.
pub open spec fn listing_lines(m: RegModel) -> Seq<Seq<char>> {
    seq!["Available commands:"@] + listing_rows_from(m, max_cmd_name_len(m), 0) + seq![
        Seq::<char>::empty(),
    ]
}

/// The help command's handler: prints one command's rendered help, why no
/// help is available, or — with no argument — the alphabetized listing of
/// every registered command.
pub fn help_command(help: &mut TerminalCommand<HelpCommand>, config: &TerminalConfiguration)
    ensures
        final(help).spec_command() is None,
        (match old(help).spec_command() {
            None => final(help).spec_lines() == old(help).spec_lines(),
            Some(hc) => match hc.command {
                Some(cmd) => final(help).spec_lines() == old(help).spec_lines().push(
                    help_reply(config.model(), cmd@),
                ),
                None => final(help).spec_lines() == old(help).spec_lines() + listing_lines(
                    config.model(),
                ),
            },
        }),
{
    let ghost m = config.model();
    match help.take() {
        None => {},
        Some(HelpCommand { command: Some(cmd) }) => {
            match config.lookup(cmd.as_str()) {
                Some(stored) => match stored {
                    Some(info) => {
                        proof {
                            assert(stored.deep_view() == Some(info.deep_view()));
                            assert(help_reply(m, cmd@) == help_text_spec(info@));
                        }
                        let text = info.help_text();
                        help.reply(text.as_str());
                    },
                    None => {
                        proof {
                            assert(stored.deep_view() == Option::<CommandInfoView>::None);
                        }
                        let mut msg = String::from_str("Help not available for command '");
                        msg.append(cmd.as_str());
                        msg.append("'");
                        proof {
                            assert(msg@ =~= help_reply(m, cmd@));
                        }
                        help.reply(msg.as_str());
                    },
                },
                None => {
                    let mut msg = String::from_str("Command '");
                    msg.append(cmd.as_str());
                    msg.append("' does not exist");
                    proof {
                        assert(msg@ =~= help_reply(m, cmd@));
                    }
                    help.reply(msg.as_str());
                },
            }
        },
        Some(HelpCommand { command: None }) => {
            let ghost pre = help.spec_lines();
            help.reply("Available commands:");
            let entries = config.entries();
            let n = entries.len();
            let mut w: usize = 0;
            let mut j: usize = 0;
            proof {
                assert(m.skip(0) =~= m);
            }
            while j < n
                invariant
                    m == entries.deep_view(),
                    entries@.len() == m.len(),
                    n == m.len(),
                    0 <= j <= n,
                    max_cmd_name_len(m) == crate::help::max_nat(
                        w as nat,
                        max_cmd_name_len(m.skip(j as int)),
                    ),
                decreases n - j,
            {
                proof {
                    assert(entries@[j as int].deep_view() == m[j as int]);
                    assert(m.skip(j as int)[0] == m[j as int]);
                    assert(m.skip(j as int).drop_first() =~= m.skip(j as int + 1));
                }
                let l = entries[j].name.as_str().unicode_len();
                if l > w {
                    w = l;
                }
                j = j + 1;
            }
            proof {
                assert(m.skip(n as int) =~= Seq::<(Seq<char>, Option<CommandInfoView>)>::empty());
                assert(w as nat == max_cmd_name_len(m));
                lemma_max_cmd_bound(m);
            }
            let ghost target = pre.push("Available commands:"@) + listing_rows_from(
                m,
                w as nat,
                0,
            );
            let mut k: usize = 0;
            while k < n
                invariant
                    m == entries.deep_view(),
                    entries@.len() == m.len(),
                    n == m.len(),
                    0 <= k <= n,
                    w as nat == max_cmd_name_len(m),
                    forall|t: int| 0 <= t < m.len() ==> (#[trigger] m[t]).0.len() <= w,
                    help.spec_command() is None,
                    help.spec_lines() + listing_rows_from(m, w as nat, k as int) == target,
                decreases n - k,
            {
                let ghost lines_pre = help.spec_lines();
                proof {
                    assert(entries@[k as int].deep_view() == m[k as int]);
                }
                let entry = &entries[k];
                let mut line = String::from_str("  ");
                line.append(entry.name.as_str());
                let pad = crate::text::space_run(w - entry.name.as_str().unicode_len());
                line.append(pad.as_str());
                match &entry.info {
                    Some(info) => match &info.description {
                        Some(d) => {
                            line.append(" - ");
                            line.append(d.as_str());
                        },
                        None => {},
                    },
                    None => {},
                }
                proof {
                    assert(line@ =~= listing_row(m[k as int], w as nat));
                }
                help.reply(line.as_str());
                proof {
                    assert(help.spec_lines() + listing_rows_from(m, w as nat, k as int + 1)
                        =~= lines_pre + listing_rows_from(m, w as nat, k as int));
                }
                k = k + 1;
            }
            proof {
                assert(listing_rows_from(m, w as nat, n as int) =~= Seq::<Seq<char>>::empty());
                assert(help.spec_lines() + listing_rows_from(m, w as nat, n as int)
                    =~= help.spec_lines());
                assert(help.spec_lines() == target);
            }
            help.reply("");
            proof {
                reveal_strlit("");
                assert("".view() =~= Seq::<char>::empty());
                assert(help.spec_lines() =~= pre + listing_lines(m));
            }
        },
    }
}

} // verus!
