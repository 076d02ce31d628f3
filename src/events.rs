//! Events observed on chains, and the commands sent to workers.
use vstd::prelude::*;

use crate::ids::Height;

verus! {

/// An IBC event, reduced to what the relay engine acts on.
#[derive(Clone, Debug, PartialEq, Eq)]
pub enum IbcEvent {
    NewBlock { height: Height },
    /// A client on this chain was updated with a header of the given height.
    UpdateClient { client_id: String, consensus_height: Height },
    /// A packet was sent on this chain's channel.
    SendPacket { channel_id: String, sequence: u64 },
    /// This chain wrote an acknowledgement for a packet received on its channel.
    WriteAcknowledgement { channel_id: String, sequence: u64 },
    /// A packet sent on this chain's channel can no longer be received.
    TimedOutPacket { channel_id: String, sequence: u64 },
    /// Anything else.
    Other,
}

/// Events of one chain at one height.
#[derive(Clone, Debug, PartialEq, Eq)]
pub struct EventBatch {
    pub chain_id: String,
    pub height: Height,
    pub events: Vec<IbcEvent>,
}

/// A command sent to a worker.
#[derive(Clone, Debug, PartialEq, Eq)]
pub enum WorkerCmd {
    IbcEvents { batch: EventBatch },
    NewBlock { height: Height },
    ClearPendingPackets,
    Shutdown,
}

} // verus!
