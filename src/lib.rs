//! Relay core: per-destination batching of captured lines with a global
//! duplicate ledger, the instruction type carried from the capture side to the
//! delivery side, the delivery loop's state machine, and the regrouping of
//! backlog messages found at start-up.

pub mod batch;
pub mod capture;
pub mod delivery;
pub mod packet;
pub mod recovery;
pub mod text;

pub use batch::{group_lines, BATCH_SIZE};
pub use capture::App;
pub use delivery::{Action, DeliveryError, DeliveryLoop, LoopState, Polled};
pub use packet::{Packet, QUEUE_CAPACITY};
pub use recovery::{recovered_lines, recovery_batches};
pub use text::{contains_line, join_range, split_lines};
