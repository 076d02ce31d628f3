use vstd::prelude::*;

use crate::client::{is_terminal, misbehaviour_handled, MisbehaviourResults};
use crate::ids::Object;

verus! {

/// Identifier of a worker, assigned in increasing order by the supervisor.
#[derive(Copy, Clone, Debug, PartialEq, Eq, PartialOrd, Ord, Hash, Structural)]
pub struct WorkerId(pub u64);

impl WorkerId {
    pub fn new(id: u64) -> (r: Self)
        ensures
            r.0 == id,
    {
        WorkerId(id)
    }

    /// The identifier that follows this one.
    pub fn next(self) -> (r: Self)
        requires
            self.0 < u64::MAX,
        ensures
            r.0 == self.0 + 1,
    {
        WorkerId(self.0 + 1)
    }
}

/// A message from a worker to the supervisor.
#[derive(Clone, Debug, PartialEq, Eq)]
pub enum WorkerMsg {
    Stopped(WorkerId, Object),
}

/// Whether a worker's loop goes on.
#[derive(Clone, Copy, Debug, PartialEq, Eq, Structural)]
pub enum Next {
    Abort,
    Continue,
}

/// A background task of a worker.
#[derive(Clone, Copy, Debug, PartialEq, Eq, Structural)]
pub enum WorkerTask {
    RefreshClient,
    DetectMisbehaviour,
    ConnectionHandshake,
    ChannelHandshake,
    PacketCommands,
    LinkExecution,
}

/// The tasks a worker runs for its object. A client worker refreshes its
/// client, and also watches for misbehaviour unless the first check of all
/// past updates (`initial_check`) already settled it.
pub fn worker_tasks(object: &Object, initial_check: &MisbehaviourResults) -> (r: Vec<WorkerTask>)
    ensures
        match *object {
            Object::Client { .. } => if is_terminal(*initial_check) {
                r@ == seq![WorkerTask::RefreshClient]
            } else {
                r@ == seq![WorkerTask::RefreshClient, WorkerTask::DetectMisbehaviour]
            },
            Object::Connection { .. } => r@ == seq![WorkerTask::ConnectionHandshake],
            Object::Channel { .. } => r@ == seq![WorkerTask::ChannelHandshake],
            Object::Packet { .. } => r@ == seq![
                WorkerTask::PacketCommands,
                WorkerTask::LinkExecution,
            ],
        },
{
    let mut tasks: Vec<WorkerTask> = Vec::new();
    match object {
        Object::Client { .. } => {
            tasks.push(WorkerTask::RefreshClient);
            if !misbehaviour_handled(initial_check) {
                tasks.push(WorkerTask::DetectMisbehaviour);
            }
        },
        Object::Connection { .. } => tasks.push(WorkerTask::ConnectionHandshake),
        Object::Channel { .. } => tasks.push(WorkerTask::ChannelHandshake),
        Object::Packet { .. } => {
            tasks.push(WorkerTask::PacketCommands);
            tasks.push(WorkerTask::LinkExecution);
        },
    }
    tasks
}

} // verus!
