//! What a wait on the traced child reports, and the status it comes to.
use vstd::prelude::*;

verus! {

/// The trace/breakpoint trap signal.
pub const SIGTRAP: i32 = 5;

/// The observable state of the traced process after one wait.
#[derive(PartialEq, Eq, Structural, Clone, Copy, Debug)]
pub enum Status {
    /// Halted by a signal (carried) at an instruction address (carried).
    Stopped(i32, usize),
    /// Ended normally with an exit code.
    Exited(i32),
    /// Ended by an uncaught signal.
    Signaled(i32),
}

impl Status {
    pub open spec fn spec_is_terminal(self) -> bool {
        self is Exited || self is Signaled
    }

    /// Whether the process is gone after this status.
    pub fn is_terminal(&self) -> (r: bool)
        ensures
            r == self.spec_is_terminal(),
    {
        match self {
            Status::Stopped(_, _) => false,
            _ => true,
        }
    }
}

/// One report of the kernel's wait on the traced child.
#[derive(PartialEq, Eq, Structural, Clone, Copy, Debug)]
pub enum WaitEvent {
    /// Ended normally, with an exit code.
    Exited(i32),
    /// Ended by a signal.
    Signaled(i32),
    /// Stopped by a signal; the instruction pointer as the registers hold it.
    Stopped(i32, usize),
    /// A ptrace event stop: the signal and the event number.
    PtraceEvent(i32, i32),
    /// Anything else (a continued child, a syscall stop, no change yet).
    Other,
}

impl WaitEvent {
    /// Whether the event is one that the status model covers: an exit, a
    /// death by signal or a signal stop. A ptrace event stop leaves the child
    /// alive and stopped, and is not covered.
    pub open spec fn spec_in_model(self) -> bool {
        self is Exited || self is Signaled || self is Stopped
    }

    /// Whether the status model covers this event.
    pub fn in_model(&self) -> (r: bool)
        ensures
            r == self.spec_in_model(),
    {
        match self {
            WaitEvent::Exited(_) | WaitEvent::Signaled(_) | WaitEvent::Stopped(_, _) => true,
            _ => false,
        }
    }
}

} // verus!
