use vstd::prelude::*;

verus! {

/// How a process ended: its exit code, or `None` when it was ended by a signal.
#[derive(Clone, Copy, Debug, PartialEq, Eq, Structural)]
pub struct ExitStatus {
    pub code: Option<i32>,
}

impl ExitStatus {
    /// A status is a success exactly when the process exited with code zero.
    pub fn success(&self) -> (r: bool)
        ensures
            r == (self.code == Some(0i32)),
    {
        match self.code {
            Some(c) => c == 0,
            None => false,
        }
    }
}


/// A failure to launch or to wait for a process, as distinct from a process
/// that ran and exited with a failing status.
#[derive(Debug)]
pub struct RunError {
    pub message: String,
}

impl Clone for RunError {
    fn clone(&self) -> (r: RunError)
        ensures
            r == *self,
    {
        RunError { message: self.message.clone() }
    }
}

/// The outcome of a handle that was cancelled before its process completed.
#[derive(Clone, Copy, Debug, PartialEq, Eq, Structural)]
pub struct RunnableTerminated;

/// Copies a process resolution.
pub(crate) fn copy_status(r: &Result<ExitStatus, RunError>) -> (c: Result<ExitStatus, RunError>)
    ensures
        c == *r,
{
    match r {
        Ok(s) => Ok(*s),
        Err(e) => Err(e.clone()),
    }
}

} // verus!
