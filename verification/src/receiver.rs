//! The receiving side of a channel: a cursor into the sequence of messages.

use vstd::prelude::*;

use crate::channel::{Channel, ChannelView};
use crate::error::RecvError;

verus! {

/// What one receive comes to, for a given channel and cursor.
pub enum RecvOutcome<T> {
    /// The cursor fell behind the oldest message kept; `skipped` messages
    /// are lost to this receiver.
    Lagged { skipped: nat },
    /// The message with this sequence number is handed out.
    Message { sequence: nat, msg: T },
    /// Nothing is left to read and no sender is left to write.
    Closed,
    /// Nothing is left to read yet.
    Pending,
}

/// The outcome of a receive at `cursor`.
pub open spec fn recv_outcome<T>(channel: ChannelView<T>, cursor: nat) -> RecvOutcome<T> {
    if cursor < channel.oldest_retained_sequence() {
        RecvOutcome::Lagged { skipped: (channel.oldest_retained_sequence() - cursor) as nat }
    } else if cursor < channel.next_sequence() {
        RecvOutcome::Message { sequence: cursor, msg: channel.sent()[cursor as int] }
    } else if channel.closed {
        RecvOutcome::Closed
    } else {
        RecvOutcome::Pending
    }
}

/// Where the cursor stands after a receive at `cursor`.
pub open spec fn cursor_after<T>(channel: ChannelView<T>, cursor: nat) -> nat {
    match recv_outcome(channel, cursor) {
        RecvOutcome::Lagged { .. } => channel.oldest_retained_sequence(),
        RecvOutcome::Message { sequence, .. } => sequence + 1,
        RecvOutcome::Closed => cursor,
        RecvOutcome::Pending => cursor,
    }
}

/// A handle for consumers: the sequence number of the next message that it
/// expects.
pub struct Receiver {
    cursor: u64,
}

impl View for Receiver {
    type V = nat;

    closed spec fn view(&self) -> nat {
        self.cursor as nat
    }
}

impl Receiver {
    pub(crate) fn at(cursor: u64) -> (receiver: Receiver)
        ensures
            receiver@ == cursor,
    {
        Receiver { cursor }
    }

    /// A new receiver of `channel`. Its cursor starts at the channel's next
    /// sequence number, so that it sees no message sent before.
    pub fn subscribe<T>(channel: &mut Channel<T>) -> (receiver: Receiver)
        requires
            old(channel)@.receivers_alive < usize::MAX,
        ensures
            final(channel)@ == old(channel)@.add_receiver(),
            final(channel).slots() == old(channel).slots(),
            receiver@ == old(channel)@.next_sequence(),
    {
        channel.new_receiver()
    }

    /// The sequence number of the next message that this receiver expects.
    pub fn cursor(&self) -> (cursor: u64)
        ensures
            cursor == self@,
    {
        self.cursor
    }

    /// One receive, without waiting.
    ///
    /// A receiver that fell behind the oldest kept message moves up to it
    /// and reports how many it skipped. Otherwise the message at the cursor
    /// is handed out and the cursor moves past it. Where there is none, a
    /// closed channel answers `Closed`; an open one answers `Ok(None)`, and
    /// the caller suspends until the next append or the close and calls
    /// again.
    pub fn recv<'a, T>(&mut self, channel: &'a Channel<T>) -> (received: Result<
        Option<&'a T>,
        RecvError,
    >)
        ensures
            final(self)@ == cursor_after(channel@, old(self)@),
            match recv_outcome(channel@, old(self)@) {
                RecvOutcome::Lagged { skipped } => received matches Err(RecvError::Lagged(n))
                    && n == skipped,
                RecvOutcome::Message { msg, .. } => received matches Ok(Some(handed))
                    && *handed == msg,
                RecvOutcome::Closed => received matches Err(RecvError::Closed),
                RecvOutcome::Pending => received matches Ok(None),
            },
    {
        let oldest: u64 = channel.oldest_retained_sequence();
        let next: u64 = channel.next_sequence();
        if self.cursor < oldest {
            let skipped: u64 = oldest - self.cursor;
            self.cursor = oldest;
            Err(RecvError::Lagged(skipped))
        } else if self.cursor < next {
            let found = channel.get(self.cursor);
            self.cursor = self.cursor + 1;
            Ok(found)
        } else if channel.is_closed() {
            Err(RecvError::Closed)
        } else {
            Ok(None)
        }
    }
}

} // verus!
