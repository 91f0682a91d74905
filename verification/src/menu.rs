use vstd::prelude::*;
use vstd::string::StringExecFns;

verus! {

/// A command typed at the program's prompt.
#[derive(Debug, PartialEq, Eq, Clone, Copy, Structural)]
pub enum Command {
    /// `s`: play a session.
    Start,
    /// `s -l`: turn on logging to a file, then play a session.
    StartLogged,
    /// `q` or `e`: leave the program.
    Quit,
    /// Anything else.
    Invalid,
}

/// The command that a (trimmed) input line names.
pub open spec fn command_of(line: Seq<char>) -> Command {
    if line == "s"@ {
        Command::Start
    } else if line == "s -l"@ {
        Command::StartLogged
    } else if line == "q"@ || line == "e"@ {
        Command::Quit
    } else {
        Command::Invalid
    }
}

/// Reads a (trimmed) input line as a command.
pub fn parse_command(line: &str) -> (cmd: Command)
    ensures
        cmd == command_of(line@),
{
    let line = String::from_str(line);
    if line == String::from_str("s") {
        Command::Start
    } else if line == String::from_str("s -l") {
        Command::StartLogged
    } else if line == String::from_str("q") || line == String::from_str("e") {
        Command::Quit
    } else {
        Command::Invalid
    }
}

} // verus!
