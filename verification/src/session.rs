//! The interactive session state machine.
//!
//! The session owns the edit buffer, the append-only scrollback transcript,
//! and a bounded history ring navigated by an independent cursor. Index 0 of
//! the history is a scratch slot for the in-progress edit; submitted lines
//! are pushed in at index 1, and the oldest entry is trimmed once the ring
//! exceeds its bound plus the scratch slot.

use vstd::prelude::*;

use crate::dispatch::{PrintTerminalLine, TerminalCommandEntered};
use crate::parser::{command_of, parse, parsed_args_of};
use crate::text::{blank, is_blank};

verus! {

/// The session state: edit buffer, scrollback, history ring and cursor.
#[derive(Debug)]
pub struct TerminalState {
    /// The single-line edit buffer.
    pub buf: String,
    /// The visible transcript, append-only unless explicitly cleared.
    pub scrollback: Vec<String>,
    /// Submitted lines, most recent first; index 0 is the scratch slot.
    pub history: Vec<String>,
    /// The history navigation cursor; 0 is the scratch slot.
    pub history_index: usize,
}

impl TerminalState {
    /// The session invariant: the scratch slot exists and the cursor stays
    /// inside the history.
    pub open spec fn wf(&self) -> bool {
        self.history@.len() >= 1 && self.history_index < self.history@.len()
    }

    /// What one submit does to the history: the line enters at index 1,
    /// behind the scratch slot, and the oldest entry leaves once the ring
    /// holds more than `bound` entries beside the scratch slot.
    pub open spec fn submit_history(h: Seq<Seq<char>>, line: Seq<char>, bound: int) -> Seq<
        Seq<char>,
    > {
        let grown = h.insert(1, line);
        if grown.len() > bound + 1 {
            grown.drop_last()
        } else {
            grown
        }
    }

    /// Submit: a blank line only appends one empty scrollback line. Any
    /// other line is echoed as `"$ " + line`, enters the history behind the
    /// scratch slot (trimming the oldest entry past the bound), and is
    /// parsed: the parsed command is handed out for dispatch, or the fixed
    /// parse-error line is appended. The buffer is then cleared and the
    /// history cursor reset.
    pub fn submit(&mut self, history_size: usize) -> (entered: Option<TerminalCommandEntered>)
        requires
            old(self).wf(),
        ensures
            final(self).wf(),
            is_blank(old(self).buf@) ==> {
                &&& final(self).scrollback.deep_view() == old(self).scrollback.deep_view().push(
                    Seq::<char>::empty(),
                )
                &&& final(self).buf == old(self).buf
                &&& final(self).history == old(self).history
                &&& final(self).history_index == old(self).history_index
                &&& entered is None
            },
            !is_blank(old(self).buf@) ==> {
                &&& final(self).history.deep_view() == TerminalState::submit_history(
                    old(self).history.deep_view(),
                    old(self).buf@,
                    history_size as int,
                )
                &&& final(self).buf@ == Seq::<char>::empty()
                &&& final(self).history_index == 0
                &&& match parsed_args_of(old(self).buf@) {
                    Some(vs) => {
                        &&& final(self).scrollback.deep_view() == old(
                            self,
                        ).scrollback.deep_view().push("$ "@ + old(self).buf@)
                        &&& entered matches Some(ev)
                        &&& ev.command@ == command_of(old(self).buf@)
                        &&& ev.args.deep_view() == vs
                    },
                    None => {
                        &&& final(self).scrollback.deep_view() == old(
                            self,
                        ).scrollback.deep_view().push("$ "@ + old(self).buf@).push(
                            "[error] invalid argument(s)"@,
                        )
                        &&& entered is None
                    },
                }
            },
            old(self).history@.len() <= history_size + 1 ==> final(self).history@.len()
                <= history_size + 1,
    {
        if blank(self.buf.as_str()) {
            let ghost pre = self.scrollback.deep_view();
            self.scrollback.push(String::new());
            proof {
                assert(self.scrollback.deep_view() =~= pre.push(Seq::<char>::empty()));
            }
            return None;
        }
        let ghost pre_scroll = self.scrollback.deep_view();
        let ghost pre_hist = self.history.deep_view();
        let ghost bufv = self.buf@;
        let mut echo = String::from_str("$ ");
        echo.append(self.buf.as_str());
        self.scrollback.push(echo);
        proof {
            assert(self.scrollback.deep_view() =~= pre_scroll.push("$ "@ + bufv));
        }
        let entry = self.buf.clone();
        self.history.insert(1, entry);
        proof {
            assert(self.history.deep_view() =~= pre_hist.insert(1, bufv));
        }
        if self.history.len() - 1 > history_size {
            let ghost grown = self.history.deep_view();
            self.history.pop();
            proof {
                assert(self.history.deep_view() =~= grown.drop_last());
            }
        }
        let result = match parse(self.buf.as_str()) {
            Ok(pc) => Some(TerminalCommandEntered { command: pc.command, args: pc.args }),
            Err(_) => {
                let ghost with_echo = self.scrollback.deep_view();
                self.scrollback.push(String::from_str("[error] invalid argument(s)"));
                proof {
                    assert(self.scrollback.deep_view() =~= with_echo.push(
                        "[error] invalid argument(s)"@,
                    ));
                }
                None
            },
        };
        self.buf = String::new();
        self.history_index = 0;
        result
    }

    /// History up: a no-op when only the scratch slot exists or the cursor
    /// already sits at the oldest entry. Otherwise, browsing away from a
    /// non-blank in-progress edit first snapshots it into the scratch slot;
    /// then the cursor moves one entry older and that entry replaces the
    /// edit buffer.
    pub fn history_up(&mut self)
        requires
            old(self).wf(),
        ensures
            final(self).wf(),
            !(old(self).history@.len() > 1 && old(self).history_index < old(self).history@.len()
                - 1) ==> *final(self) == *old(self),
            (old(self).history@.len() > 1 && old(self).history_index < old(self).history@.len()
                - 1) ==> ({
                let snapped = if old(self).history_index == 0 && !is_blank(old(self).buf@) {
                    old(self).history.deep_view().update(0, old(self).buf@)
                } else {
                    old(self).history.deep_view()
                };
                &&& final(self).history.deep_view() == snapped
                &&& final(self).history_index == old(self).history_index + 1
                &&& final(self).buf@ == snapped[old(self).history_index + 1]
                &&& final(self).scrollback == old(self).scrollback
            }),
    {
        if self.history.len() > 1 && self.history_index < self.history.len() - 1 {
            let ghost pre_hist = self.history.deep_view();
            if self.history_index == 0 && !blank(self.buf.as_str()) {
                let snapshot = self.buf.clone();
                self.history.remove(0);
                self.history.insert(0, snapshot);
                proof {
                    assert(self.history.deep_view() =~= pre_hist.update(0, self.buf@));
                }
            }
            self.history_index = self.history_index + 1;
            let item = self.history[self.history_index].clone();
            self.buf = item;
        }
    }

    /// History down: a no-op at the scratch slot. Otherwise the cursor
    /// moves one entry newer and that entry replaces the edit buffer.
    pub fn history_down(&mut self)
        requires
            old(self).wf(),
        ensures
            final(self).wf(),
            old(self).history_index == 0 ==> *final(self) == *old(self),
            old(self).history_index > 0 ==> {
                &&& final(self).history == old(self).history
                &&& final(self).history_index == old(self).history_index - 1
                &&& final(self).buf@ == old(self).history.deep_view()[old(self).history_index - 1]
                &&& final(self).scrollback == old(self).scrollback
            },
    {
        if self.history_index > 0 {
            self.history_index = self.history_index - 1;
            let item = self.history[self.history_index].clone();
            self.buf = item;
        }
    }

    /// The clear command's effect: the scrollback is emptied; history and
    /// edit buffer are untouched.
    pub fn clear_scrollback(&mut self)
        requires
            old(self).wf(),
        ensures
            final(self).wf(),
            final(self).scrollback.deep_view() == Seq::<Seq<char>>::empty(),
            final(self).buf == old(self).buf,
            final(self).history == old(self).history,
            final(self).history_index == old(self).history_index,
    {
        self.scrollback.clear();
        proof {
            assert(self.scrollback.deep_view() =~= Seq::<Seq<char>>::empty());
        }
    }
}

impl Default for TerminalState {
    /// A fresh session: empty buffer and scrollback, the history holding
    /// only the scratch slot, the cursor on it.
    fn default() -> (r: TerminalState)
        ensures
            r.wf(),
            r.buf@ == Seq::<char>::empty(),
            r.scrollback.deep_view() == Seq::<Seq<char>>::empty(),
            r.history.deep_view() == seq![Seq::<char>::empty()],
            r.history_index == 0,
    {
        let mut history: Vec<String> = Vec::new();
        history.push(String::new());
        let r = TerminalState { buf: String::new(), scrollback: Vec::new(), history, history_index: 0 };
        proof {
            assert(r.scrollback.deep_view() =~= Seq::<Seq<char>>::empty());
            assert(r.history.deep_view() =~= seq![Seq::<char>::empty()]);
        }
        r
    }
}

/// Mirrors printed reply events into the session's scrollback, in order.
pub fn receive_terminal_line(state: &mut TerminalState, events: &Vec<PrintTerminalLine>)
    requires
        old(state).wf(),
    ensures
        final(state).wf(),
        final(state).scrollback.deep_view() == old(state).scrollback.deep_view()
            + events.deep_view(),
        final(state).buf == old(state).buf,
        final(state).history == old(state).history,
        final(state).history_index == old(state).history_index,
{
    let ghost pre = state.scrollback.deep_view();
    let mut i: usize = 0;
    proof {
        assert(pre + events.deep_view().take(0) =~= pre);
    }
    while i < events.len()
        invariant
            old(state).wf(),
            state.wf(),
            0 <= i <= events@.len(),
            state.scrollback.deep_view() == pre + events.deep_view().take(i as int),
            state.buf == old(state).buf,
            state.history == old(state).history,
            state.history_index == old(state).history_index,
        decreases events@.len() - i,
    {
        let ghost sofar = state.scrollback.deep_view();
        state.scrollback.push(events[i].line.clone());
        proof {
            assert(events@[i as int].deep_view() == events.deep_view()[i as int]);
            assert(state.scrollback.deep_view() =~= sofar.push(events.deep_view()[i as int]));
            assert(sofar.push(events.deep_view()[i as int]) =~= pre + events.deep_view().take(
                i as int + 1,
            ));
        }
        i = i + 1;
    }
    proof {
        assert(events.deep_view().take(events@.len() as int) =~= events.deep_view());
    }
}

} // verus!
