//! Routing of console input.
//!
//! A dedicated thread reads newline-terminated lines from standard input and
//! hands each to the command handler under the console's sender identity.
//! Whether a line is forwarded at all is decided here: an empty line — a
//! zero-length read, or the bare newline an empty line of input leaves — is
//! dropped without invoking the handler; every other line is forwarded
//! verbatim, newline included.

use vstd::prelude::*;
use vstd::string::StrSliceExecFns;

verus! {

/// The identity a command is issued under.
#[derive(Clone, Copy, PartialEq, Eq, Structural, Debug)]
pub enum CommandSender {
    /// The interactive local console.
    Console,
}

/// One invocation owed to the command handler: who sent the text, and the
/// text itself, verbatim.
pub struct CommandCall {
    pub sender: CommandSender,
    pub text: String,
}

/// A line the console drops: nothing was read, or the line holds only the
/// newline that ended it.
pub open spec fn empty_line(s: Seq<char>) -> bool {
    s.len() == 0 || s == seq!['\n']
}

/// Decide what a line read from the console is owed: an empty line produces
/// no invocation at all; any other line produces exactly one invocation,
/// under the console identity, with the text unchanged.
pub fn route_console_line(line: String) -> (call: Option<CommandCall>)
    ensures
        match call {
            Some(c) => !empty_line(line@) && c.sender == CommandSender::Console && c.text@
                == line@,
            None => empty_line(line@),
        },
{
    let n = line.as_str().unicode_len();
    if n == 0 {
        None
    } else if n == 1 {
        let c = line.as_str().get_char(0);
        if c == '\n' {
            proof {
                assert(line@ =~= seq!['\n']);
            }
            None
        } else {
            proof {
                assert(line@ != seq!['\n']);
            }
            Some(CommandCall { sender: CommandSender::Console, text: line })
        }
    } else {
        proof {
            assert(line@ != seq!['\n']);
        }
        Some(CommandCall { sender: CommandSender::Console, text: line })
    }
}

} // verus!
