//! A bounded broadcast channel with per-subscriber cursors, and the
//! two-phase bridge that hands a blocking receive to a worker.
//!
//! Every message sent is delivered to each receiver that subscribed before
//! it was sent. The channel keeps the most recent messages up to its
//! capacity; a receiver that falls further behind is told how many messages
//! it missed and goes on from the oldest one kept.
//!
//! The types here are plain values and their operations single steps: the
//! embedder shares a channel behind a lock of its own, wakes the receivers
//! that wait after an append or a close, and schedules the worker of a
//! bridged receive.

pub mod bridge;
pub mod channel;
pub mod error;
pub mod history;
pub mod laws;
pub mod receiver;
pub mod ring;
pub mod sender;

pub use crate::bridge::ReceiveBridge;
pub use crate::channel::Channel;
pub use crate::receiver::Receiver;
pub use crate::ring::RingBuffer;
pub use crate::sender::Sender;
