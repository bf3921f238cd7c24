//! The sending side of a channel.

use vstd::prelude::*;

use crate::channel::Channel;
use crate::error::SendError;

verus! {

/// A handle for producers. It holds no data: it stands for one unit of the
/// channel's count of senders, from `new_sender` until `drop_sender`.
pub struct Sender {
    attached: (),
}

impl Sender {
    pub(crate) fn attached() -> Sender {
        Sender { attached: () }
    }

    /// Sends `msg` to every receiver of `channel`. A channel that is closed,
    /// or has used up its sequence numbers, answers `Closed` and stays as it
    /// is. After `Ok` the caller wakes every receiver that waits.
    pub fn send<T>(&self, channel: &mut Channel<T>, msg: T) -> (sent: Result<(), SendError>)
        ensures
            final(channel)@ == old(channel)@.send(msg),
            final(channel).slots() == if old(channel)@.accepts() {
                old(channel)@.buffer.store(old(channel).slots(), msg)
            } else {
                old(channel).slots()
            },
            sent is Ok <==> old(channel)@.accepts(),
            sent matches Err(e) ==> e == SendError::Closed,
    {
        if channel.accepts() {
            channel.append(msg);
            Ok(())
        } else {
            Err(SendError::Closed)
        }
    }

    /// Another sender for the same channel.
    pub fn clone<T>(&self, channel: &mut Channel<T>) -> (twin: Sender)
        requires
            old(channel)@.senders_alive < usize::MAX,
        ensures
            final(channel)@ == old(channel)@.add_sender(),
            final(channel).slots() == old(channel).slots(),
    {
        channel.new_sender()
    }
}

} // verus!
