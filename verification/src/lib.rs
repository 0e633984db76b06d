//! Building blocks for passing data between threads: a fixed-capacity byte
//! buffer with big-endian accessors, bounded ring queues for one or many
//! producers and a single consumer, and a double-buffered map for one writer
//! and many readers.
//!
//! Every data structure is described by a mathematical view. An operation
//! on a structure that its caller owns carries a contract over that view.
//! The handles that share a structure between threads reach it through a
//! lock; what they find there depends on the other threads, so their
//! operations state only what holds of every outcome, and the operations
//! that they pass the structure to state the rest.

pub mod buffer;
pub mod bytes;
pub mod fence;
pub mod mpsc_queue;
pub mod mrsw_map;
pub mod pow2;
pub mod queue;
pub mod ring;
pub mod ring_queue;
pub mod spsc_queue;
pub mod sync;
