//! The channel: one ring buffer, the count of the handles that are alive,
//! and the mark that closes it.
//!
//! A channel is a plain value with one owner. Whoever shares it between
//! threads puts it behind a lock and runs each operation of this module as
//! one step under that lock; handles name no channel, the caller passes the
//! channel that they were made for.

use vstd::prelude::*;

use crate::error::ConfigError;
use crate::receiver::Receiver;
use crate::ring::{RingBuffer, RingView};
use crate::sender::Sender;

verus! {

/// The capacity of a channel that is made without naming one.
pub const DEFAULT_CAPACITY: usize = 16;

/// What a channel stands for.
pub struct ChannelView<T> {
    /// The capacity and every message sent so far.
    pub buffer: RingView<T>,
    /// How many senders are alive.
    pub senders_alive: nat,
    /// How many receivers are alive.
    pub receivers_alive: nat,
    /// Set when the last sender goes, and never cleared.
    pub closed: bool,
}

impl<T> ChannelView<T> {
    /// A channel has room for at least one message.
    pub open spec fn valid(self) -> bool {
        self.buffer.valid()
    }

    /// A channel as it is created: empty, open, without handles.
    pub open spec fn fresh(capacity: nat) -> Self {
        ChannelView {
            buffer: RingView::empty(capacity),
            senders_alive: 0,
            receivers_alive: 0,
            closed: false,
        }
    }

    /// The number of messages that the channel keeps.
    pub open spec fn capacity(self) -> nat {
        self.buffer.capacity
    }

    /// Every message sent so far, by sequence number.
    pub open spec fn sent(self) -> Seq<T> {
        self.buffer.sent
    }

    /// The sequence number that the next message will get.
    pub open spec fn next_sequence(self) -> nat {
        self.buffer.next_sequence()
    }

    /// The lowest sequence number that can still be read.
    pub open spec fn oldest_retained_sequence(self) -> nat {
        self.buffer.oldest_retained_sequence()
    }

    /// Whether a message can still be appended: the channel is open and a
    /// sequence number is left for it.
    pub open spec fn accepts(self) -> bool {
        !self.closed && self.next_sequence() < u64::MAX
    }

    /// The channel after `msg` was appended.
    pub open spec fn append(self, msg: T) -> Self {
        ChannelView { buffer: self.buffer.append(msg), ..self }
    }

    /// The channel after an attempt to send `msg`: appended where the
    /// channel accepts it, dropped where it does not.
    pub open spec fn send(self, msg: T) -> Self {
        if self.accepts() {
            self.append(msg)
        } else {
            self
        }
    }

    /// The channel with one more sender.
    pub open spec fn add_sender(self) -> Self {
        ChannelView { senders_alive: self.senders_alive + 1, ..self }
    }

    /// The channel after one sender went. The last one to go closes it.
    pub open spec fn drop_sender(self) -> Self {
        if self.senders_alive > 0 {
            ChannelView {
                senders_alive: (self.senders_alive - 1) as nat,
                closed: self.closed || self.senders_alive == 1,
                ..self
            }
        } else {
            self
        }
    }

    /// The channel with one more receiver.
    pub open spec fn add_receiver(self) -> Self {
        ChannelView { receivers_alive: self.receivers_alive + 1, ..self }
    }

    /// The channel after one receiver went.
    pub open spec fn drop_receiver(self) -> Self {
        if self.receivers_alive > 0 {
            ChannelView { receivers_alive: (self.receivers_alive - 1) as nat, ..self }
        } else {
            self
        }
    }
}

/// A broadcast channel of bounded depth.
pub struct Channel<T> {
    buffer: RingBuffer<T>,
    senders_alive: usize,
    receivers_alive: usize,
    closed: bool,
}

impl<T> View for Channel<T> {
    type V = ChannelView<T>;

    closed spec fn view(&self) -> ChannelView<T> {
        ChannelView {
            buffer: self.buffer@,
            senders_alive: self.senders_alive as nat,
            receivers_alive: self.receivers_alive as nat,
            closed: self.closed,
        }
    }
}

impl<T> Channel<T> {
    /// What the slots of the buffer hold, by slot number.
    pub closed spec fn slots(&self) -> Seq<T> {
        self.buffer.slots()
    }

    /// A channel that keeps the last `capacity` messages, or `ZeroCapacity`
    /// when `capacity` is zero.
    pub fn create(capacity: usize) -> (made: Result<Self, ConfigError>)
        ensures
            capacity == 0 <==> made is Err,
            made matches Ok(channel) ==> channel@ == ChannelView::<T>::fresh(capacity as nat)
                && channel.slots().len() == 0,
            made matches Err(e) ==> e == ConfigError::ZeroCapacity,
    {
        if capacity == 0 {
            Err(ConfigError::ZeroCapacity)
        } else {
            Ok(Self::with_buffer(RingBuffer::with_capacity(capacity)))
        }
    }

    /// A channel of the default capacity.
    pub fn new() -> (channel: Self)
        ensures
            channel@ == ChannelView::<T>::fresh(DEFAULT_CAPACITY as nat),
            channel.slots().len() == 0,
    {
        Self::with_buffer(RingBuffer::with_capacity(DEFAULT_CAPACITY))
    }

    fn with_buffer(buffer: RingBuffer<T>) -> (channel: Self)
        ensures
            channel@ == (ChannelView {
                buffer: buffer@,
                senders_alive: 0,
                receivers_alive: 0,
                closed: false,
            }),
            channel.slots() == buffer.slots(),
    {
        Channel { buffer, senders_alive: 0, receivers_alive: 0, closed: false }
    }

    /// The number of messages that the channel keeps.
    pub fn capacity(&self) -> (capacity: usize)
        ensures
            capacity == self@.capacity(),
            capacity > 0,
    {
        self.buffer.capacity()
    }

    /// The sequence number that the next message will get.
    pub fn next_sequence(&self) -> (next: u64)
        ensures
            next == self@.next_sequence(),
    {
        self.buffer.next_sequence()
    }

    /// The lowest sequence number that can still be read:
    /// `max(0, next_sequence - capacity)`.
    pub fn oldest_retained_sequence(&self) -> (oldest: u64)
        ensures
            oldest == self@.oldest_retained_sequence(),
    {
        self.buffer.oldest_retained_sequence()
    }

    /// How many senders are alive.
    pub fn senders_alive(&self) -> (count: usize)
        ensures
            count == self@.senders_alive,
    {
        self.senders_alive
    }

    /// How many receivers are alive.
    pub fn receivers_alive(&self) -> (count: usize)
        ensures
            count == self@.receivers_alive,
    {
        self.receivers_alive
    }

    /// Whether the last sender has gone.
    pub fn is_closed(&self) -> (closed: bool)
        ensures
            closed == self@.closed,
    {
        self.closed
    }

    /// Whether a message can still be appended.
    pub fn accepts(&self) -> (accepts: bool)
        ensures
            accepts == self@.accepts(),
    {
        !self.closed && self.buffer.next_sequence() < u64::MAX
    }

    /// The message with the given sequence number, if it is still kept.
    pub fn get(&self, sequence: u64) -> (found: Option<&T>)
        ensures
            found is Some <==> self@.buffer.retains(sequence as nat),
            found matches Some(msg) ==> *msg == self@.sent()[sequence as int] && *msg
                == self.slots()[self@.buffer.slot_of(sequence as nat)],
    {
        self.buffer.get(sequence)
    }

    /// Appends `msg` under the next sequence number, which is returned. The
    /// message goes to the slot of that number; when the channel is full,
    /// the oldest message is the one that it overwrites there. The caller
    /// then wakes every receiver that waits for a message.
    pub fn append(&mut self, msg: T) -> (sequence: u64)
        requires
            old(self)@.accepts(),
        ensures
            final(self)@ == old(self)@.append(msg),
            sequence == old(self)@.next_sequence(),
            final(self).slots() == old(self)@.buffer.store(old(self).slots(), msg),
    {
        self.buffer.append(msg)
    }

    /// A new sender for this channel.
    pub fn new_sender(&mut self) -> (sender: Sender)
        requires
            old(self)@.senders_alive < usize::MAX,
        ensures
            final(self)@ == old(self)@.add_sender(),
            final(self).slots() == old(self).slots(),
    {
        self.senders_alive = self.senders_alive + 1;
        Sender::attached()
    }

    /// A new receiver, which will see the messages sent from now on.
    pub fn new_receiver(&mut self) -> (receiver: Receiver)
        requires
            old(self)@.receivers_alive < usize::MAX,
        ensures
            final(self)@ == old(self)@.add_receiver(),
            final(self).slots() == old(self).slots(),
            receiver@ == old(self)@.next_sequence(),
    {
        self.receivers_alive = self.receivers_alive + 1;
        Receiver::at(self.buffer.next_sequence())
    }

    /// Gives a sender up. When it was the last one, the channel is closed
    /// and the result is `true`: the caller then wakes every receiver that
    /// waits for a message.
    pub fn drop_sender(&mut self, sender: Sender) -> (closed_now: bool)
        ensures
            final(self)@ == old(self)@.drop_sender(),
            final(self).slots() == old(self).slots(),
            closed_now == (!old(self)@.closed && final(self)@.closed),
    {
        let _ = sender;
        if self.senders_alive > 0 {
            self.senders_alive = self.senders_alive - 1;
            if self.senders_alive == 0 && !self.closed {
                self.closed = true;
                return true;
            }
        }
        false
    }

    /// Gives a receiver up.
    pub fn drop_receiver(&mut self, receiver: Receiver)
        ensures
            final(self)@ == old(self)@.drop_receiver(),
            final(self).slots() == old(self).slots(),
    {
        let _ = receiver;
        if self.receivers_alive > 0 {
            self.receivers_alive = self.receivers_alive - 1;
        }
    }
}

} // verus!
