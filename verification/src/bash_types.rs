//! Event types of the bash activation: streamed output lines and the exit
//! code. The exit event closes the stream.

use vstd::prelude::*;

verus! {

/// Input of the execute method.
#[derive(Debug, Clone, PartialEq, Eq)]
pub struct ExecuteInput {
    /// The command to run.
    pub command: String,
}

/// One line of standard output.
#[derive(Debug, Clone, PartialEq, Eq)]
pub struct StdoutEvent {
    pub line: String,
}

/// One line of standard error.
#[derive(Debug, Clone, PartialEq, Eq)]
pub struct StderrEvent {
    pub line: String,
}

/// The exit code once the process finished.
#[derive(Debug, Clone, PartialEq, Eq)]
pub struct ExitEvent {
    pub code: i32,
}

/// One streamed item of a running execution.
#[derive(Debug, Clone, PartialEq, Eq)]
pub enum BashStreamEvent {
    Stdout(StdoutEvent),
    Stderr(StderrEvent),
    Exit(ExitEvent),
}

/// An event of the bash activation's stream; `Exit` is the terminal one.
#[derive(Debug, Clone, PartialEq, Eq)]
pub enum BashEvent {
    Stdout { line: String },
    Stderr { line: String },
    Exit { code: i32 },
}

/// A failure of the bash activation.
#[derive(Debug, Clone, PartialEq, Eq)]
pub struct BashError {
    pub message: String,
}

impl BashEvent {
    /// The content type of this event family on the wire.
    pub fn content_type() -> (r: &'static str)
        ensures
            r@ == "bash.event"@,
    {
        "bash.event"
    }

    /// Whether this event closes the stream: exactly the exit event.
    pub fn is_terminal(&self) -> (r: bool)
        ensures
            r <==> self matches BashEvent::Exit { .. },
    {
        match self {
            BashEvent::Exit { .. } => true,
            _ => false,
        }
    }
}

} // verus!
