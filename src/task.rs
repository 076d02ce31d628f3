//! Control of background tasks: what a step's outcome means for the loop.
use vstd::prelude::*;

verus! {

/// How a task step failed.
#[derive(Clone, Debug, PartialEq, Eq)]
pub enum TaskError<E> {
    /// The task is done; stop without error.
    Abort,
    /// A passing failure; keep running.
    Ignore(E),
    /// An unrecoverable failure; stop.
    Fatal(E),
}

/// What a task does next.
#[derive(Clone, Copy, Debug, PartialEq, Eq, Structural)]
pub enum TaskControl {
    Continue,
    Stop,
}

/// Whether a task whose step returned `result` keeps running.
pub open spec fn keeps_running<E>(result: Result<(), TaskError<E>>) -> bool {
    match result {
        Ok(()) => true,
        Err(TaskError::Ignore(_)) => true,
        Err(_) => false,
    }
}

/// The decision after one step of a task: `Ok` and ignorable errors go on,
/// `Abort` and fatal errors stop.
pub fn step_control<E>(result: &Result<(), TaskError<E>>) -> (r: TaskControl)
    ensures
        r == TaskControl::Continue <==> keeps_running(*result),
{
    match result {
        Ok(()) => TaskControl::Continue,
        Err(TaskError::Ignore(_)) => TaskControl::Continue,
        Err(TaskError::Abort) => TaskControl::Stop,
        Err(TaskError::Fatal(_)) => TaskControl::Stop,
    }
}

} // verus!
