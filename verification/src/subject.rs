//! Core subject value types.
//!
//! A subject is the hosted entity the harness runs chaos against. These are
//! plain values that depend on nothing else in the crate.
use vstd::prelude::*;

use crate::text::{join3, str_eq};

verus! {

/// A hosted subject identifier, e.g. `"docker/<container id>"`.
pub struct Subject {
    pub id: String,
}

impl Subject {
    pub fn new(id: String) -> (s: Subject)
        ensures
            s.id@ == id@,
    {
        Subject { id }
    }

    /// Display text of a subject: `Subject { id: <id> }`.
    pub open spec fn spec_text(&self) -> Seq<char> {
        "Subject { id: "@ + self.id@ + " }"@
    }

    /// The display text of the subject (see [`Subject::spec_text`]).
    pub fn to_string(&self) -> (s: String)
        ensures
            s@ == self.spec_text(),
    {
        join3("Subject { id: ", self.id.as_str(), " }")
    }
}

/// Log stream classification.
#[derive(Clone, Copy, Debug, PartialEq, Eq, Structural)]
pub enum Stream {
    StdOut,
    StdErr,
}

impl Stream {
    pub open spec fn spec_name(self) -> Seq<char> {
        match self {
            Stream::StdOut => "stdout"@,
            Stream::StdErr => "stderr"@,
        }
    }

    /// Name of the stream: `stdout` or `stderr`.
    pub fn as_str(&self) -> (s: &'static str)
        ensures
            s@ == self.spec_name(),
    {
        match self {
            Stream::StdOut => "stdout",
            Stream::StdErr => "stderr",
        }
    }

    /// Name of the stream as an owned string.
    pub fn to_string(&self) -> (s: String)
        ensures
            s@ == self.spec_name(),
    {
        String::from_str(self.as_str())
    }
}

/// One log line from a subject.
pub struct LogEntry {
    pub stream: Stream,
    pub message: String,
}

/// Result of a command executed inside a subject.
pub struct ExecResult {
    pub exit_code: i32,
    pub stdout: String,
    pub stderr: String,
}

/// Substrate-agnostic liveness status used for dependency readiness waits.
#[derive(Clone, Copy, Debug, PartialEq, Eq, Structural)]
pub enum SubjectStatus {
    /// Subject is up and running.
    Running,
    /// Subject exists but is not currently running (paused, starting, ...).
    Pending,
    /// Subject has terminated: waiting is pointless.
    Terminated,
}

/// The result of hosting a subject: its instance id and an optional
/// reachable address (e.g. `"localhost:8080"`).
pub struct HostedSubject {
    pub id: String,
    pub addr: Option<String>,
}

/// Equality of two optional strings by their characters.
pub fn opt_str_eq(a: &Option<String>, b: &Option<String>) -> (r: bool)
    ensures
        r == (match (a, b) {
            (Some(x), Some(y)) => x@ == y@,
            (None, None) => true,
            _ => false,
        }),
{
    match (a, b) {
        (Some(x), Some(y)) => str_eq(x.as_str(), y.as_str()),
        (None, None) => true,
        _ => false,
    }
}

} // verus!
