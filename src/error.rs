use vstd::prelude::*;

verus! {

/// Errors raised by the relay engine's own logic.
#[derive(Clone, Debug, PartialEq, Eq)]
pub enum Error {
    /// A message could not be written out as protobuf.
    ProtobufEncode,
    /// Bytes could not be read back as a protobuf message.
    ProtobufDecode,
    /// A single message is larger than the configured transaction size.
    MessageTooBigForTx { size: usize, max_tx_size: usize },
    /// The simulated (or default) gas is above the configured maximum.
    GasEstimateExceeded { chain_id: String, estimated_gas: u64, max_gas: u64 },
}

} // verus!
