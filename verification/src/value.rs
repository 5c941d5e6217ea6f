//! Completion values and task kinds.

use vstd::prelude::*;

verus! {

/// A completion result carried into a callback: absence of a value,
/// a piece of text, or an unsigned integer.
#[derive(Debug)]
pub enum Js {
    Undefined,
    String(String),
    Int(usize),
}

impl Js {
    /// The text carried by the value, if it carries text.
    pub fn into_string(self) -> (r: Option<String>)
        ensures
            match self {
                Js::String(s) => r == Some(s),
                _ => r is None,
            },
    {
        match self {
            Js::String(s) => Some(s),
            _ => None,
        }
    }

    /// The integer carried by the value, if it carries an integer.
    pub fn into_int(self) -> (r: Option<usize>)
        ensures
            match self {
                Js::Int(n) => r == Some(n),
                _ => r is None,
            },
    {
        match self {
            Js::Int(n) => Some(n),
            _ => None,
        }
    }
}

/// The kind of a unit of blocking work, kept for diagnostics only.
#[derive(Debug, Clone, Copy, PartialEq, Eq, Structural)]
pub enum EventKind {
    FileRead,
    Encrypt,
}

impl EventKind {
    /// The human-readable name of the kind.
    pub open spec fn spec_label(self) -> Seq<char> {
        match self {
            EventKind::FileRead => "File read"@,
            EventKind::Encrypt => "Encrypt"@,
        }
    }

    /// The human-readable name of the kind.
    pub fn label(&self) -> (r: &'static str)
        ensures
            r@ == self.spec_label(),
    {
        match self {
            EventKind::FileRead => "File read",
            EventKind::Encrypt => "Encrypt",
        }
    }
}

/// The errors of the runtime core.  Every condition the runtime treats
/// as fatal is surfaced as a typed value instead of an abort.
#[derive(Debug, Clone, Copy, PartialEq, Eq, Structural)]
pub enum RuntimeError {
    /// Resource exhaustion: no worker is idle.
    OutOfThreads,
    /// Protocol violation: no callback is registered under the identity.
    UnknownIdentity,
    /// Protocol violation: the completion names a worker that is not busy.
    WorkerNotBusy,
    /// Protocol violation: the identity belongs to a watch, not a task.
    NotATask,
    /// Protocol violation: the resource is already watched.
    DuplicateWatch,
    /// Protocol violation: no watch is armed for the resource.
    UnknownEvent,
}

} // verus!
