//! The log sink of the shell.

use vstd::prelude::*;
use vstd::string::*;

verus! {

/// The sink that forwards what a script traces straight to the terminal,
/// one line per message. It keeps nothing.
#[derive(Clone, Copy, Debug, PartialEq, Eq, Structural)]
pub struct RedLogBackend();

impl RedLogBackend {
    /// The sink.
    pub fn new() -> (sink: Self)
        ensures
            sink == RedLogBackend(),
    {
        Self()
    }

    /// The text that a traced message puts on the terminal: the message as
    /// it is, then a line feed.
    pub fn trace_line(&self, message: &str) -> (out: String)
        ensures
            out@ == message@.push('\n'),
    {
        let mut out = String::from_str(message);
        out.append("\n");
        proof {
            reveal_strlit("\n");
            assert("\n"@ =~= seq!['\n']);
            assert(out@ =~= message@.push('\n'));
        }
        out
    }
}

} // verus!
