//! A single-context dataflow scheduler: it maps a static topology of blocks
//! (keyed by dense integer id) onto running tasks, giving every block a
//! bounded inbox channel and returning the table of inbox senders that a
//! message router uses to address the blocks.

pub mod block;
pub mod channel;
pub mod message;
pub mod scheduler;
pub mod table;
pub mod topology;

pub use block::Block;
pub use block::block_outputs;
pub use message::AsyncMessage;
pub use scheduler::Diagnostic;
pub use scheduler::WasmScheduler;
pub use table::InboxTable;
pub use topology::Slot;
pub use topology::Topology;
pub use topology::TopologyError;
