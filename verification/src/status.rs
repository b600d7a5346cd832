//! What the kernel reports of a child process, as plain values.

use vstd::prelude::*;

verus! {

/// A report of `waitpid` on one child. Process ids and signals are their raw
/// numbers.
#[derive(Clone, Copy, Debug, PartialEq, Eq, Structural)]
pub enum WaitStatus {
    /// The process exited with this code.
    Exited(i32, i32),
    /// The process was killed by this signal; the flag tells of a core dump.
    Signaled(i32, i32, bool),
    /// The process was stopped by this signal.
    Stopped(i32, i32),
    /// A traced process stopped on this signal with this event.
    PtraceEvent(i32, i32, i32),
    /// A traced process stopped at a system call.
    PtraceSyscall(i32),
    /// The process was resumed.
    Continued(i32),
    /// No child changed state.
    StillAlive,
}

impl WaitStatus {
    /// The process that the report is about.
    pub open spec fn spec_pid(self) -> Option<i32> {
        match self {
            WaitStatus::Exited(p, _) => Some(p),
            WaitStatus::Signaled(p, _, _) => Some(p),
            WaitStatus::Stopped(p, _) => Some(p),
            WaitStatus::PtraceEvent(p, _, _) => Some(p),
            WaitStatus::PtraceSyscall(p) => Some(p),
            WaitStatus::Continued(p) => Some(p),
            WaitStatus::StillAlive => None,
        }
    }

    /// A terminal report: the process is gone.
    pub open spec fn is_terminal(self) -> bool {
        self is Exited || self is Signaled
    }

    /// The process was stopped by a signal.
    pub open spec fn is_stopped(self) -> bool {
        self is Stopped
    }

    /// The exit status that a shell shows for a terminal report: the exit code, or
    /// 128 plus the number of the signal that killed the process.
    pub open spec fn spec_exit_code(self) -> Option<int> {
        match self {
            WaitStatus::Exited(_, code) => Some(code as int),
            WaitStatus::Signaled(_, signo, _) => Some(128 + signo),
            _ => None,
        }
    }

    /// The process that the report is about, if it is about one.
    #[verifier::when_used_as_spec(spec_pid)]
    pub fn pid(self) -> (r: Option<i32>)
        ensures
            r == self.spec_pid(),
    {
        match self {
            WaitStatus::Exited(p, _) => Some(p),
            WaitStatus::Signaled(p, _, _) => Some(p),
            WaitStatus::Stopped(p, _) => Some(p),
            WaitStatus::PtraceEvent(p, _, _) => Some(p),
            WaitStatus::PtraceSyscall(p) => Some(p),
            WaitStatus::Continued(p) => Some(p),
            WaitStatus::StillAlive => None,
        }
    }

    /// Tells whether the process is gone.
    pub fn terminal(self) -> (r: bool)
        ensures
            r == self.is_terminal(),
    {
        match self {
            WaitStatus::Exited(_, _) => true,
            WaitStatus::Signaled(_, _, _) => true,
            _ => false,
        }
    }

    /// Tells whether the process was stopped.
    pub fn stopped(self) -> (r: bool)
        ensures
            r == self.is_stopped(),
    {
        match self {
            WaitStatus::Stopped(_, _) => true,
            _ => false,
        }
    }

    /// The exit status of a terminal report; `None` for any other. A signal
    /// number too large for `128 + signo` gives `i32::MAX`.
    pub fn exit_code(self) -> (r: Option<i32>)
        ensures
            r is Some <==> self.is_terminal(),
            r matches Some(c) ==> c == (if self.spec_exit_code()->0 > i32::MAX {
                i32::MAX as int
            } else {
                self.spec_exit_code()->0
            }),
    {
        match self {
            WaitStatus::Exited(_, code) => Some(code),
            WaitStatus::Signaled(_, signo, _) => if signo > i32::MAX - 128 {
                Some(i32::MAX)
            } else {
                Some(signo + 128)
            },
            _ => None,
        }
    }
}

/// The name of signal number `signo`, such as `SIGINT`, as
/// `nix::sys::signal::Signal::as_str` gives it; empty for a number that is no
/// signal here. Which number bears which name depends on the platform, so
/// nothing is claimed of the text.
#[verifier::external_body]
pub(crate) fn signal_name(signo: i32) -> (r: String) {
    match nix::sys::signal::Signal::try_from(signo) {
        Ok(s) => s.as_str().to_string(),
        Err(_) => String::new(),
    }
}

} // verus!
