//! Decision logic of an IBC relay engine: message batching, gas and fee
//! estimation, transaction framing, the per-direction packet schedule, the
//! registry of workers, and the state machines that drive client and packet
//! workers. Chain I/O, threads and channels live outside this crate; they hand
//! plain values in and carry out the actions that come back.

pub mod batch;
pub mod channel_cmd;
pub mod client;
pub mod error;
pub mod events;
pub mod gas;
pub mod ids;
pub mod packet;
pub mod proto;
pub mod relay_path;
pub mod retry;
pub mod supervisor;
pub mod task;
pub mod tx;
pub mod worker;
pub mod worker_map;
