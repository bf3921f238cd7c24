//! The errors that the channel and the bridge report.

use vstd::prelude::*;

verus! {

/// A channel cannot be built from the given parameters.
#[derive(Clone, Copy, Debug, PartialEq, Eq, Structural)]
pub enum ConfigError {
    /// The requested capacity was zero.
    ZeroCapacity,
}

/// A message could not be accepted.
#[derive(Clone, Copy, Debug, PartialEq, Eq, Structural)]
pub enum SendError {
    /// The channel takes no further messages.
    Closed,
}

/// A receive did not yield a message.
#[derive(Clone, Copy, Debug, PartialEq, Eq, Structural)]
pub enum RecvError {
    /// The receiver fell behind and skipped this many messages.
    Lagged(u64),
    /// Every sender is gone and nothing is left to read.
    Closed,
}

/// The bridge was used out of turn.
#[derive(Clone, Copy, Debug, PartialEq, Eq, Structural)]
pub enum BridgeError {
    /// No finished receive is waiting to be collected.
    NotReady,
}

/// What collecting from the bridge can fail with.
#[derive(Clone, Copy, Debug, PartialEq, Eq, Structural)]
pub enum CollectError {
    /// The receive itself finished with an error.
    Recv(RecvError),
    /// The bridge had nothing to hand out.
    Bridge(BridgeError),
}

} // verus!
