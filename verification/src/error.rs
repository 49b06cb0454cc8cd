//! Errors of the input loop.

use vstd::prelude::*;

verus! {

/// What can end a session's input loop.
///
/// Every kind but a handler's own error is raised by the loop itself:
/// `TerminalMode` when raw mode cannot be entered or restored, `IoRead` when
/// reading a keystroke fails, `IoFlush` when writing or flushing the redrawn
/// line fails. A handler signals failure with `Handler`, and the loop
/// propagates it verbatim. An unrecognized command is not an error of the
/// loop: it is reported to the user and the loop goes on.
#[derive(Clone, Debug, PartialEq, Eq)]
pub enum RellError {
    /// Entering or restoring the raw terminal mode failed.
    TerminalMode,
    /// Reading a byte from the terminal failed.
    IoRead,
    /// Writing or flushing terminal output failed.
    IoFlush,
    /// A registered handler reported a failure of its own.
    Handler(String),
}

} // verus!
