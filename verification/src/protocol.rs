//! The Git remote-helper line protocol: commands that Git sends on the
//! helper's standard input, and how one line is read as a command.

use vstd::prelude::*;
use crate::text::{
    or_empty, owned_or_empty, split_once, split_once_at, str_eq, trim, trim_end_char, trim_end_matches,
    trim_ws,
};

verus! {

/// Commands that Git sends to a remote helper.
#[derive(Debug, Clone, PartialEq, Eq)]
pub enum Command {
    /// `capabilities`: Git asks what the helper supports.
    Capabilities,
    /// `list`: Git wants the remote refs (for fetch or clone).
    List,
    /// `list for-push`: Git wants the refs before a push.
    ListForPush,
    /// `import <ref>`: Git wants a fast-import stream.
    Import(Vec<String>),
    /// `push <src>:<dst>`: Git pushes a local ref to a remote ref.
    Push { src: String, dst: String },
    /// `option <key> <value>`.
    Option(String, String),
    /// Empty line: batch terminator.
    Blank,
    /// Any other verb.
    Unknown(String),
}

/// The mathematical value of a [`Command`].
pub enum CommandView {
    Capabilities,
    List,
    ListForPush,
    Import(Seq<Seq<char>>),
    Push { src: Seq<char>, dst: Seq<char> },
    Option(Seq<char>, Seq<char>),
    Blank,
    Unknown(Seq<char>),
}

impl View for Command {
    type V = CommandView;

    open spec fn view(&self) -> CommandView {
        match self {
            Command::Capabilities => CommandView::Capabilities,
            Command::List => CommandView::List,
            Command::ListForPush => CommandView::ListForPush,
            Command::Import(refs) => CommandView::Import(
                refs@.map_values(|r: String| r@),
            ),
            Command::Push { src, dst } => CommandView::Push { src: src@, dst: dst@ },
            Command::Option(k, v) => CommandView::Option(k@, v@),
            Command::Blank => CommandView::Blank,
            Command::Unknown(verb) => CommandView::Unknown(verb@),
        }
    }
}

/// The command that one line (without its line terminator) denotes.
pub open spec fn spec_parse_command(line: Seq<char>) -> CommandView {
    if line.len() == 0 {
        CommandView::Blank
    } else {
        let verb = split_once(line, ' ').0;
        let rest = trim_ws(or_empty(split_once(line, ' ').1));
        if verb == "capabilities"@ {
            CommandView::Capabilities
        } else if verb == "list"@ {
            if rest == "for-push"@ {
                CommandView::ListForPush
            } else {
                CommandView::List
            }
        } else if verb == "import"@ {
            CommandView::Import(seq![rest])
        } else if verb == "push"@ {
            CommandView::Push {
                src: split_once(rest, ':').0,
                dst: or_empty(split_once(rest, ':').1),
            }
        } else if verb == "option"@ {
            CommandView::Option(split_once(rest, ' ').0, or_empty(split_once(rest, ' ').1))
        } else {
            CommandView::Unknown(verb)
        }
    }
}

/// A raw line as read, without its trailing `\n`s and then its trailing `\r`s.
pub open spec fn strip_line_end(raw: Seq<char>) -> Seq<char> {
    trim_end_char(trim_end_char(raw, '\n'), '\r')
}

/// What reading the raw line `raw` yields: nothing at end of input (no
/// character read), else the command of the line without its terminator.
pub open spec fn spec_read_command(raw: Seq<char>) -> Option<CommandView> {
    if raw.len() == 0 {
        None
    } else {
        Some(spec_parse_command(strip_line_end(raw)))
    }
}

/// Parse one protocol line (without its line terminator).
pub fn parse_command(line: &str) -> (cmd: Command)
    ensures
        cmd@ == spec_parse_command(line@),
{
    if line.unicode_len() == 0 {
        return Command::Blank;
    }
    let (verb, tail) = split_once_at(line, ' ');
    let rest_raw = owned_or_empty(tail);
    let rest = trim(rest_raw.as_str());
    if str_eq(verb.as_str(), "capabilities") {
        Command::Capabilities
    } else if str_eq(verb.as_str(), "list") {
        if str_eq(rest.as_str(), "for-push") {
            Command::ListForPush
        } else {
            Command::List
        }
    } else if str_eq(verb.as_str(), "import") {
        let mut refs: Vec<String> = Vec::new();
        refs.push(rest);
        let ghost r = refs@.map_values(|r: String| r@);
        assert(r =~= seq![r[0]]);
        Command::Import(refs)
    } else if str_eq(verb.as_str(), "push") {
        let (src, dst) = split_once_at(rest.as_str(), ':');
        Command::Push { src, dst: owned_or_empty(dst) }
    } else if str_eq(verb.as_str(), "option") {
        let (key, val) = split_once_at(rest.as_str(), ' ');
        Command::Option(key, owned_or_empty(val))
    } else {
        Command::Unknown(verb)
    }
}

/// Interpret one raw line read from Git (with its terminator, if any).
///
/// An empty `raw` means that nothing was read: the input is closed and the
/// helper should exit, so the result is `None`.
pub fn read_command(raw: &str) -> (cmd: Option<Command>)
    ensures
        match spec_read_command(raw@) {
            Some(c) => cmd is Some && cmd->0@ == c,
            None => cmd is None,
        },
{
    if raw.unicode_len() == 0 {
        return None;
    }
    let without_nl = trim_end_matches(raw, '\n');
    let line = trim_end_matches(without_nl.as_str(), '\r');
    Some(parse_command(line.as_str()))
}

} // verus!
