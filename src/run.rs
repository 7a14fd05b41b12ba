use vstd::prelude::*;
use vstd::string::*;

use crate::command::{
    command_named, first_word, line_argument, parse_command_line, Command, CommandError,
};
use crate::text::same_text;

verus! {

/// What the client does next.
#[derive(Debug, Clone, PartialEq, Eq)]
pub enum Action {
    /// Make this call with this argument.
    Call(Command, String),
    /// Nothing is left to do.
    Done,
    /// Stop with this error.
    Fail(CommandError),
}

/// A run through a fixed list of command lines. It stops after the shutdown
/// command, at the first line that names no command, or at the end of the list.
pub struct CommandRun {
    pub lines: Vec<String>,
    pub next: usize,
    pub stopped: bool,
}

/// One step of a run: from `s`, handing out `a`, to `t`.
pub open spec fn step(s: CommandRun, a: Action, t: CommandRun) -> bool {
    &&& t.lines@ == s.lines@
    &&& if s.stopped || s.next >= s.lines@.len() {
        a is Done && t.stopped && t.next == s.next
    } else {
        let line = s.lines@[s.next as int]@;
        match command_named(first_word(line)) {
            None => (a matches Action::Fail(CommandError::InvalidCommand(n)) && n@ == first_word(
                line,
            )) && t.stopped && t.next == s.next,
            Some(c) => (a matches Action::Call(c2, arg) && c2 == c && arg@ == line_argument(line))
                && t.next == s.next + 1 && t.stopped == (c == Command::Shutdown),
        }
    }
}

impl CommandRun {
    /// A run that starts at the first line.
    pub fn new(lines: Vec<String>) -> (r: CommandRun)
        ensures
            r.lines@ == lines@,
            r.next == 0,
            !r.stopped,
    {
        CommandRun { lines, next: 0, stopped: false }
    }

    /// Hands out what to do next, and moves on.
    pub fn next_action(&mut self) -> (a: Action)
        ensures
            step(*old(self), a, *final(self)),
    {
        if self.stopped || self.next >= self.lines.len() {
            self.stopped = true;
            return Action::Done;
        }
        let parsed = parse_command_line(self.lines[self.next].as_str());
        match parsed {
            Ok((cmd, arg)) => {
                self.next = self.next + 1;
                self.stopped = cmd.is_shutdown();
                Action::Call(cmd, arg)
            },
            Err(e) => {
                self.stopped = true;
                Action::Fail(e)
            },
        }
    }
}

/// Once a run has handed out the shutdown command, it hands out nothing more.
pub proof fn lemma_nothing_after_shutdown(
    s0: CommandRun,
    a0: Action,
    s1: CommandRun,
    a1: Action,
    s2: CommandRun,
)
    requires
        step(s0, a0, s1),
        a0 matches Action::Call(c, _) && c == Command::Shutdown,
        step(s1, a1, s2),
    ensures
        a1 is Done,
        s2.stopped,
{
}

/// What an interactive client does with a line that was typed.
#[derive(Debug, Clone, PartialEq, Eq)]
pub enum LineAction {
    /// An empty line: ask again.
    Ignore,
    /// The quit word: stop without a call.
    Quit,
    /// Make this call with this argument.
    Run(Command, String),
    /// Stop with this error.
    Fail(CommandError),
}

pub open spec fn quit_word() -> Seq<char> {
    seq!['q', 'u', 'i', 't']
}

pub open spec fn is_empty_line(line: Seq<char>) -> bool {
    line.len() == 0 || line == seq!['\n']
}

pub open spec fn is_quit_line(line: Seq<char>) -> bool {
    line.len() >= 4 && line.take(4) == quit_word()
}

/// Decides what to do with a line typed at the interactive prompt.
pub fn line_action(line: &str) -> (r: LineAction)
    ensures
        is_empty_line(line@) ==> r is Ignore,
        !is_empty_line(line@) && is_quit_line(line@) ==> r is Quit,
        !is_empty_line(line@) && !is_quit_line(line@) ==> match command_named(first_word(line@)) {
            Some(c) => r matches LineAction::Run(c2, arg) && c2 == c && arg@ == line_argument(
                line@,
            ),
            None => r matches LineAction::Fail(CommandError::InvalidCommand(n)) && n@ == first_word(
                line@,
            ),
        },
{
    proof {
        reveal_strlit("\n");
        reveal_strlit("quit");
        assert("\n"@ =~= seq!['\n']);
        assert("quit"@ =~= quit_word());
    }
    let n = line.unicode_len();
    if n == 0 || same_text(line, "\n") {
        return LineAction::Ignore;
    }
    if n >= 4 && same_text(line.substring_char(0, 4), "quit") {
        return LineAction::Quit;
    }
    match parse_command_line(line) {
        Ok((cmd, arg)) => LineAction::Run(cmd, arg),
        Err(e) => LineAction::Fail(e),
    }
}

} // verus!
