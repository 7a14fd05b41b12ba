use vstd::prelude::*;
use vstd::string::*;

use crate::text::{is_white, push_char, same_text, white};

verus! {

/// A call that the client can make.
#[derive(Debug, Clone, Copy, PartialEq, Eq, Structural)]
pub enum Command {
    /// Sends a greeting with the given name.
    SayHello,
    /// Asks the server to stop; it ends a run of commands.
    Shutdown,
}

/// Why a command line was not accepted.
#[derive(Debug, Clone, PartialEq, Eq)]
pub enum CommandError {
    /// No command has this name.
    InvalidCommand(String),
}

pub open spec fn command_name(c: Command) -> Seq<char> {
    match c {
        Command::SayHello => seq!['S', 'a', 'y', 'H', 'e', 'l', 'l', 'o'],
        Command::Shutdown => seq!['S', 'h', 'u', 't', 'd', 'o', 'w', 'n'],
    }
}

/// The command with the given name, compared exactly.
pub open spec fn command_named(name: Seq<char>) -> Option<Command> {
    if name == command_name(Command::SayHello) {
        Some(Command::SayHello)
    } else if name == command_name(Command::Shutdown) {
        Some(Command::Shutdown)
    } else {
        None
    }
}

impl Command {
    /// The name under which the command is given.
    pub fn name(self) -> (r: String)
        ensures
            r@ == command_name(self),
    {
        proof {
            reveal_strlit("SayHello");
            reveal_strlit("Shutdown");
        }
        match self {
            Command::SayHello => String::from_str("SayHello"),
            Command::Shutdown => String::from_str("Shutdown"),
        }
    }

    /// Whether the command ends a run of commands.
    pub fn is_shutdown(self) -> (r: bool)
        ensures
            r == (self == Command::Shutdown),
    {
        match self {
            Command::Shutdown => true,
            Command::SayHello => false,
        }
    }
}

/// The names of all commands, in the order of the table.
pub fn get_cmd_names() -> (r: Vec<String>)
    ensures
        r@.len() == 2,
        r@[0]@ == command_name(Command::SayHello),
        r@[1]@ == command_name(Command::Shutdown),
{
    let mut names: Vec<String> = Vec::new();
    names.push(Command::SayHello.name());
    names.push(Command::Shutdown.name());
    names
}

/// Looks a command up by its exact name.
pub fn get_cmd_func(name: &str) -> (r: Result<Command, CommandError>)
    ensures
        command_named(name@) matches Some(c) ==> r == Ok::<Command, CommandError>(c),
        command_named(name@) is None ==> (r matches Err(CommandError::InvalidCommand(n))
            && n@ == name@),
{
    let hello = Command::SayHello.name();
    let shutdown = Command::Shutdown.name();
    if same_text(name, hello.as_str()) {
        Ok(Command::SayHello)
    } else if same_text(name, shutdown.as_str()) {
        Ok(Command::Shutdown)
    } else {
        Err(CommandError::InvalidCommand(String::from_str(name)))
    }
}

pub open spec fn flush(cur: Seq<char>, acc: Seq<Seq<char>>) -> Seq<Seq<char>> {
    if cur.len() > 0 {
        acc.push(cur)
    } else {
        acc
    }
}

/// Splits `s` at white space, going on from a word `cur` under way and the
/// words `acc` already found.
pub open spec fn scan_words(s: Seq<char>, cur: Seq<char>, acc: Seq<Seq<char>>) -> Seq<Seq<char>>
    decreases s.len(),
{
    if s.len() == 0 {
        flush(cur, acc)
    } else if white(s[0]) {
        scan_words(s.drop_first(), Seq::empty(), flush(cur, acc))
    } else {
        scan_words(s.drop_first(), cur.push(s[0]), acc)
    }
}

/// The words of `s`: its longest runs of characters that are not white space.
pub open spec fn words(s: Seq<char>) -> Seq<Seq<char>> {
    scan_words(s, Seq::empty(), Seq::empty())
}

/// Words joined with one space between each two.
pub open spec fn join_words(ws: Seq<Seq<char>>) -> Seq<char>
    decreases ws.len(),
{
    if ws.len() == 0 {
        Seq::empty()
    } else if ws.len() == 1 {
        ws[0]
    } else {
        join_words(ws.drop_last()) + seq![' '] + ws.last()
    }
}

pub open spec fn strings_view(v: Seq<String>) -> Seq<Seq<char>> {
    v.map_values(|s: String| s@)
}

/// The first word of a line, or nothing for a blank line.
pub open spec fn first_word(line: Seq<char>) -> Seq<char> {
    if words(line).len() > 0 {
        words(line)[0]
    } else {
        Seq::empty()
    }
}

/// The argument of a command line: its words after the first, joined by spaces.
pub open spec fn line_argument(line: Seq<char>) -> Seq<char> {
    if words(line).len() > 0 {
        join_words(words(line).drop_first())
    } else {
        Seq::empty()
    }
}

/// Splits a line into its words.
pub fn split_words(line: &str) -> (r: Vec<String>)
    ensures
        strings_view(r@) == words(line@),
{
    let n = line.unicode_len();
    let mut acc: Vec<String> = Vec::new();
    let mut cur = String::new();
    let mut i: usize = 0;
    assert(line@.skip(0) =~= line@);
    assert(cur@ =~= Seq::<char>::empty());
    assert(strings_view(acc@) =~= Seq::<Seq<char>>::empty());
    while i < n
        invariant
            n == line@.len(),
            i <= n,
            scan_words(line@.skip(i as int), cur@, strings_view(acc@)) == words(line@),
        decreases n - i,
    {
        let c = line.get_char(i);
        let ghost rest = line@.skip(i as int);
        assert(rest.drop_first() =~= line@.skip(i + 1));
        assert(rest[0] == c);
        let ghost cur0 = cur@;
        let ghost acc0 = strings_view(acc@);
        if is_white(c) {
            if cur.unicode_len() > 0 {
                acc.push(cur);
                assert(strings_view(acc@) =~= acc0.push(cur0));
                cur = String::new();
            }
            assert(cur@ =~= Seq::<char>::empty());
            assert(strings_view(acc@) == flush(cur0, acc0));
            assert(scan_words(rest, cur0, acc0) == scan_words(
                rest.drop_first(),
                Seq::empty(),
                flush(cur0, acc0),
            ));
        } else {
            push_char(&mut cur, c);
            assert(scan_words(rest, cur0, acc0) == scan_words(
                rest.drop_first(),
                cur0.push(c),
                acc0,
            ));
        }
        i = i + 1;
    }
    if cur.unicode_len() > 0 {
        let ghost before = strings_view(acc@);
        acc.push(cur);
        assert(strings_view(acc@) =~= before.push(cur@));
    }
    acc
}

/// Joins the words after the first with single spaces.
fn join_after_first(ws: &Vec<String>) -> (r: String)
    requires
        ws@.len() > 0,
    ensures
        r@ == join_words(strings_view(ws@).drop_first()),
{
    let ghost all = strings_view(ws@);
    let mut out = String::new();
    let mut k: usize = 1;
    while k < ws.len()
        invariant
            all == strings_view(ws@),
            1 <= k <= ws@.len(),
            out@ == join_words(all.subrange(1, k as int)),
        decreases ws@.len() - k,
    {
        let ghost done = all.subrange(1, k as int);
        assert(all.subrange(1, k + 1).drop_last() =~= done);
        assert(all.subrange(1, k + 1).last() == ws@[k as int]@);
        if k > 1 {
            out.append(" ");
            proof {
                reveal_strlit(" ");
                assert(" "@ =~= seq![' ']);
            }
        }
        out.append(ws[k].as_str());
        k = k + 1;
    }
    assert(all.subrange(1, k as int) =~= all.drop_first());
    out
}

/// Reads a command line: the command named by its first word, and the rest of
/// its words joined by single spaces.
pub fn parse_command_line(line: &str) -> (r: Result<(Command, String), CommandError>)
    ensures
        command_named(first_word(line@)) matches Some(c) ==> (r matches Ok((c2, args)) && c2 == c
            && args@ == line_argument(line@)),
        command_named(first_word(line@)) is None ==> (r matches Err(
            CommandError::InvalidCommand(n),
        ) && n@ == first_word(line@)),
{
    let ws = split_words(line);
    if ws.len() == 0 {
        proof {
            reveal_strlit("");
        }
        assert(""@ =~= first_word(line@));
        return match get_cmd_func("") {
            Ok(c) => Ok((c, String::new())),
            Err(e) => Err(e),
        };
    }
    let cmd = get_cmd_func(ws[0].as_str())?;
    let args = join_after_first(&ws);
    Ok((cmd, args))
}

} // verus!
