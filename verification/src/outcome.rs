//! What became of one run of the command.

use vstd::prelude::*;

verus! {

/// How one execution of the command ended.
#[derive(Clone, Copy, Debug, PartialEq, Eq, Structural)]
pub enum ExitOutcome {
    /// The child exited with status code 0.
    Success,
    /// The child ended otherwise; the code is absent when it was terminated
    /// abnormally, for instance by a signal.
    Failure(Option<i32>),
    /// The child could not be started at all.
    SpawnError,
}

impl ExitOutcome {
    /// The outcome of a child that was started and has terminated with the
    /// given exit code, if it has one.
    pub open spec fn of_exit_code(code: Option<i32>) -> ExitOutcome {
        if code == Some(0i32) {
            ExitOutcome::Success
        } else {
            ExitOutcome::Failure(code)
        }
    }

    /// Classifies the exit code of a terminated child.
    pub fn from_exit_code(code: Option<i32>) -> (outcome: ExitOutcome)
        ensures
            outcome == Self::of_exit_code(code),
    {
        match code {
            Some(0) => ExitOutcome::Success,
            _ => ExitOutcome::Failure(code),
        }
    }

    /// Whether the command ran and reported success.
    pub fn is_success(&self) -> (ok: bool)
        ensures
            ok == (*self == ExitOutcome::Success),
    {
        match self {
            ExitOutcome::Success => true,
            _ => false,
        }
    }
}

} // verus!
