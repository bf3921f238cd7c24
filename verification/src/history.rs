//! Runs of a channel: what one receiver sees while the channel is operated
//! on in any order.
//!
//! Everything here is ghost code. The operations of the library are the
//! events of a run, and each event changes the channel and the receiver
//! exactly as the contract of its operation says.

use vstd::prelude::*;

use crate::channel::ChannelView;
use crate::receiver::{cursor_after, recv_outcome, RecvOutcome};

verus! {

/// One operation on a channel.
pub enum Event<T> {
    /// A sender sends this message.
    Send(T),
    /// The receiver with this number receives once.
    Recv(nat),
    /// A sender is made.
    NewSender,
    /// A sender is given up.
    DropSender,
    /// A receiver is made.
    NewReceiver,
    /// A receiver is given up.
    DropReceiver,
}

/// A channel as one of its receivers goes along with it: the channel, the
/// receiver's cursor, and what its receives came to so far, first to last.
pub struct Watch<T> {
    pub channel: ChannelView<T>,
    pub cursor: nat,
    pub outcomes: Seq<RecvOutcome<T>>,
}

impl<T> Watch<T> {
    /// A receiver at `cursor` that has not received yet.
    pub open spec fn begin(channel: ChannelView<T>, cursor: nat) -> Self {
        Watch { channel, cursor, outcomes: Seq::empty() }
    }

    /// A receiver that has just subscribed to `channel`.
    pub open spec fn subscribed(channel: ChannelView<T>) -> Self {
        Watch::begin(channel.add_receiver(), channel.next_sequence())
    }

    /// How many messages the receiver has yet to read or to skip.
    pub open spec fn backlog(self) -> int {
        self.channel.next_sequence() - self.cursor
    }

    /// The state after one event, seen by the receiver numbered `me`.
    /// A receive of another receiver leaves this one as it is.
    pub open spec fn step(self, me: nat, event: Event<T>) -> Self {
        match event {
            Event::Send(msg) => Watch { channel: self.channel.send(msg), ..self },
            Event::Recv(who) => if who == me {
                Watch {
                    channel: self.channel,
                    cursor: cursor_after(self.channel, self.cursor),
                    outcomes: self.outcomes.push(recv_outcome(self.channel, self.cursor)),
                }
            } else {
                self
            },
            Event::NewSender => Watch { channel: self.channel.add_sender(), ..self },
            Event::DropSender => Watch { channel: self.channel.drop_sender(), ..self },
            Event::NewReceiver => Watch { channel: self.channel.add_receiver(), ..self },
            Event::DropReceiver => Watch { channel: self.channel.drop_receiver(), ..self },
        }
    }

    /// The state after all of `events`, in order.
    pub open spec fn run(self, me: nat, events: Seq<Event<T>>) -> Self
        decreases events.len(),
    {
        if events.len() == 0 {
            self
        } else {
            self.run(me, events.drop_last()).step(me, events.last())
        }
    }
}

/// The messages among the outcomes, in order.
pub open spec fn messages_of<T>(outcomes: Seq<RecvOutcome<T>>) -> Seq<T>
    decreases outcomes.len(),
{
    if outcomes.len() == 0 {
        Seq::empty()
    } else {
        let earlier = messages_of(outcomes.drop_last());
        match outcomes.last() {
            RecvOutcome::Message { msg, .. } => earlier.push(msg),
            _ => earlier,
        }
    }
}

/// Whether none of the outcomes reports a lag.
pub open spec fn never_lagged<T>(outcomes: Seq<RecvOutcome<T>>) -> bool {
    forall|i: int| 0 <= i < outcomes.len() ==> !(#[trigger] outcomes[i] is Lagged)
}

/// Whether the receiver is never more than the capacity behind: after
/// each event, the channel still keeps every message that it has not read.
pub open spec fn keeps_up<T>(start: Watch<T>, me: nat, events: Seq<Event<T>>) -> bool {
    forall|i: int|
        0 <= i <= events.len() ==> (#[trigger] start.run(me, events.take(i))).backlog()
            <= start.channel.capacity()
}

/// The messages of the `Send` events, in order.
pub open spec fn sends_of<T>(events: Seq<Event<T>>) -> Seq<T>
    decreases events.len(),
{
    if events.len() == 0 {
        Seq::empty()
    } else {
        let earlier = sends_of(events.drop_last());
        match events.last() {
            Event::Send(msg) => earlier.push(msg),
            _ => earlier,
        }
    }
}

/// How many receives the receiver numbered `me` makes.
pub open spec fn receives_of<T>(me: nat, events: Seq<Event<T>>) -> nat
    decreases events.len(),
{
    if events.len() == 0 {
        0
    } else {
        let earlier = receives_of(me, events.drop_last());
        if events.last() == Event::<T>::Recv(me) {
            earlier + 1
        } else {
            earlier
        }
    }
}

/// How many messages were sent and not yet received by the receiver
/// numbered `me`, counted on the events alone.
pub open spec fn unread_after<T>(me: nat, events: Seq<Event<T>>) -> int {
    sends_of(events).len() - receives_of(me, events)
}

/// Whether the sends never exceed the capacity before they are drained,
/// and no receive comes before its message: after each event, the messages
/// sent and not yet received number between zero and the capacity.
pub open spec fn drained_in_time<T>(me: nat, events: Seq<Event<T>>, capacity: nat) -> bool {
    forall|i: int| 0 <= i <= events.len() ==> 0 <= #[trigger] unread_after(me, events.take(i)) <= capacity
}

/// Whether every `Send` event meets a channel that accepts the message.
pub open spec fn all_accepted<T>(start: Watch<T>, me: nat, events: Seq<Event<T>>) -> bool {
    forall|i: int|
        0 <= i < events.len() && events[i] is Send ==> (#[trigger] start.run(
            me,
            events.take(i),
        )).channel.accepts()
}

/// What the `i`-th receive on a closed channel comes to, counted from
/// zero, for a receiver that stood at `cursor` when the channel closed: its
/// lag first, if it had fallen behind; then the messages still kept that
/// it has not read; then `Closed`.
pub open spec fn nth_on_closed<T>(channel: ChannelView<T>, cursor: nat, i: int) -> RecvOutcome<T> {
    let oldest = channel.oldest_retained_sequence();
    let lagged: int = if cursor < oldest { 1 } else { 0 };
    let first: int = if cursor < oldest { oldest as int } else { cursor as int };
    let sequence = first + i - lagged;
    if cursor < oldest && i == 0 {
        RecvOutcome::Lagged { skipped: (oldest - cursor) as nat }
    } else if sequence < channel.next_sequence() {
        RecvOutcome::Message { sequence: sequence as nat, msg: channel.sent()[sequence] }
    } else {
        RecvOutcome::Closed
    }
}

} // verus!
