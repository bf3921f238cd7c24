//! What holds of every channel, receiver and bridge, proved from what the
//! contracts of the operations say.

use vstd::prelude::*;

use crate::bridge::{handed_out, BridgeState};
use crate::channel::ChannelView;
use crate::error::{BridgeError, CollectError, RecvError};
use crate::history::{
    all_accepted, drained_in_time, keeps_up, messages_of, never_lagged, nth_on_closed,
    receives_of, sends_of, unread_after, Event, Watch,
};
use crate::receiver::{cursor_after, recv_outcome, RecvOutcome};
use crate::ring::RingView;

verus! {

/// A buffer keeps the most recent messages, as many as its capacity
/// allows, in the order in which they were appended.
pub proof fn law_buffer_keeps_the_latest<T>(buffer: RingView<T>)
    requires
        buffer.valid(),
    ensures
        buffer.retained().len() <= buffer.capacity,
        buffer.retained().len() == if buffer.sent.len() <= buffer.capacity {
            buffer.sent.len()
        } else {
            buffer.capacity
        },
        buffer.retained().is_suffix_of(buffer.sent),
        forall|sequence: nat| #[trigger]
            buffer.retains(sequence) <==> sequence < buffer.sent.len() && buffer.sent.len()
                - sequence <= buffer.capacity,
        forall|sequence: nat| #[trigger]
            buffer.retains(sequence) ==> buffer.retained()[sequence
                - buffer.oldest_retained_sequence()] == buffer.sent[sequence as int],
{
}

/// Whatever is done to a channel, its capacity stays as it was made, the
/// messages sent so far stay what they were and new ones come behind them,
/// a closed channel stays closed and takes nothing more, no cursor moves
/// back or past the end, and what a receiver has seen stays seen.
pub proof fn law_runs_only_add<T>(start: Watch<T>, me: nat, events: Seq<Event<T>>)
    ensures
        ({
            let end = start.run(me, events);
            &&& end.channel.capacity() == start.channel.capacity()
            &&& start.channel.sent().is_prefix_of(end.channel.sent())
            &&& start.channel.closed ==> end.channel.closed && end.channel.sent()
                == start.channel.sent()
            &&& start.cursor <= end.cursor
            &&& start.cursor <= start.channel.next_sequence() ==> end.cursor
                <= end.channel.next_sequence()
            &&& start.outcomes.is_prefix_of(end.outcomes)
        }),
    decreases events.len(),
{
    if events.len() > 0 {
        law_runs_only_add(start, me, events.drop_last());
    }
}

/// The channel goes the same way whichever receiver is watched.
pub proof fn law_one_channel_for_all<T>(start: Watch<T>, a: nat, b: nat, events: Seq<Event<T>>)
    ensures
        start.run(a, events).channel == start.run(b, events).channel,
    decreases events.len(),
{
    if events.len() > 0 {
        law_one_channel_for_all(start, a, b, events.drop_last());
    }
}

/// Where every send is accepted, the messages sent are those that the
/// channel had before, followed by those of the `Send` events.
pub proof fn law_sent_is_what_was_sent<T>(start: Watch<T>, me: nat, events: Seq<Event<T>>)
    requires
        all_accepted(start, me, events),
    ensures
        start.run(me, events).channel.sent() == start.channel.sent() + sends_of(events),
    decreases events.len(),
{
    if events.len() > 0 {
        let earlier = events.drop_last();
        assert forall|i: int| 0 <= i < earlier.len() && earlier[i] is Send implies
            (#[trigger] start.run(me, earlier.take(i))).channel.accepts() by {
            assert(earlier.take(i) == events.take(i));
        }
        law_sent_is_what_was_sent(start, me, earlier);
    }
}

/// A receiver that never lagged has received, in order and without a gap,
/// the messages from its first cursor up to its last.
pub proof fn law_no_gaps_without_lag<T>(
    channel: ChannelView<T>,
    cursor: nat,
    me: nat,
    events: Seq<Event<T>>,
)
    requires
        cursor <= channel.next_sequence(),
        never_lagged(Watch::begin(channel, cursor).run(me, events).outcomes),
    ensures
        ({
            let end = Watch::begin(channel, cursor).run(me, events);
            &&& cursor <= end.cursor <= end.channel.next_sequence()
            &&& messages_of(end.outcomes) == end.channel.sent().subrange(
                cursor as int,
                end.cursor as int,
            )
        }),
    decreases events.len(),
{
    let start = Watch::begin(channel, cursor);
    if events.len() > 0 {
        let earlier = events.drop_last();
        let before = start.run(me, earlier);
        let end = start.run(me, events);
        assert(never_lagged(before.outcomes)) by {
            assert forall|i: int| 0 <= i < before.outcomes.len() implies
                !(#[trigger] before.outcomes[i] is Lagged) by {
                assert(before.outcomes[i] == end.outcomes[i]);
            }
        }
        law_no_gaps_without_lag(channel, cursor, me, earlier);
        if events.last() == Event::<T>::Recv(me) {
            assert(end.outcomes.drop_last() == before.outcomes);
        }
    }
}

/// A receiver that the channel never outruns never lags.
pub proof fn law_keeping_up_prevents_lag<T>(
    channel: ChannelView<T>,
    cursor: nat,
    me: nat,
    events: Seq<Event<T>>,
)
    requires
        keeps_up(Watch::begin(channel, cursor), me, events),
    ensures
        never_lagged(Watch::begin(channel, cursor).run(me, events).outcomes),
    decreases events.len(),
{
    let start = Watch::begin(channel, cursor);
    if events.len() > 0 {
        let earlier = events.drop_last();
        let before = start.run(me, earlier);
        let end = start.run(me, events);
        assert forall|i: int| 0 <= i <= earlier.len() implies
            (#[trigger] start.run(me, earlier.take(i))).backlog() <= start.channel.capacity() by {
            assert(earlier.take(i) == events.take(i));
        }
        law_keeping_up_prevents_lag(channel, cursor, me, earlier);
        law_runs_only_add(start, me, earlier);
        assert forall|i: int| 0 <= i < end.outcomes.len() implies
            !(#[trigger] end.outcomes[i] is Lagged) by {
            if i < before.outcomes.len() {
                assert(end.outcomes[i] == before.outcomes[i]);
            }
        }
    }
}

/// A receiver that subscribes before the first message, and that the
/// channel never outruns, never lags and receives the messages in the
/// order in which they were sent: after its receives it has seen the first
/// so many of them, and all of them once it has caught up. Where every send
/// was accepted, these are the messages of the `Send` events.
pub proof fn law_in_order_delivery<T>(channel: ChannelView<T>, me: nat, events: Seq<Event<T>>)
    requires
        channel.sent().len() == 0,
        keeps_up(Watch::subscribed(channel), me, events),
    ensures
        ({
            let start = Watch::subscribed(channel);
            let end = start.run(me, events);
            &&& never_lagged(end.outcomes)
            &&& end.cursor <= end.channel.next_sequence()
            &&& messages_of(end.outcomes) == end.channel.sent().take(end.cursor as int)
            &&& end.backlog() == 0 ==> messages_of(end.outcomes) == end.channel.sent()
            &&& all_accepted(start, me, events) ==> end.channel.sent() == sends_of(events)
        }),
{
    let start = Watch::subscribed(channel);
    let arrived = channel.add_receiver();
    law_keeping_up_prevents_lag(arrived, 0, me, events);
    law_no_gaps_without_lag(arrived, 0, me, events);
    if all_accepted(start, me, events) {
        law_sent_is_what_was_sent(start, me, events);
    }
}

/// For any sequence of sends and a receiver that subscribed before them:
/// where the sends never exceed the capacity before they are drained, the
/// receives return exactly the messages sent, in the order sent, and never
/// a lag.
pub proof fn law_sends_arrive_in_order<T>(channel: ChannelView<T>, me: nat, events: Seq<Event<T>>)
    requires
        channel.sent().len() == 0,
        all_accepted(Watch::subscribed(channel), me, events),
        drained_in_time(me, events, channel.capacity()),
    ensures
        ({
            let end = Watch::subscribed(channel).run(me, events);
            &&& end.channel.sent() == sends_of(events)
            &&& end.cursor == receives_of(me, events)
            &&& end.outcomes.len() == receives_of(me, events)
            &&& forall|j: int|
                0 <= j < end.outcomes.len() ==> #[trigger] end.outcomes[j] == (RecvOutcome::Message {
                    sequence: j as nat,
                    msg: sends_of(events)[j],
                })
        }),
    decreases events.len(),
{
    let start = Watch::subscribed(channel);
    if events.len() > 0 {
        let earlier = events.drop_last();
        let before = start.run(me, earlier);
        let end = start.run(me, events);
        assert forall|i: int| 0 <= i < earlier.len() && earlier[i] is Send implies
            (#[trigger] start.run(me, earlier.take(i))).channel.accepts() by {
            assert(earlier.take(i) == events.take(i));
        }
        assert forall|i: int| 0 <= i <= earlier.len() implies
            0 <= #[trigger] unread_after(me, earlier.take(i)) <= channel.capacity() by {
            assert(earlier.take(i) == events.take(i));
        }
        law_sends_arrive_in_order(channel, me, earlier);
        law_runs_only_add(start, me, earlier);
        assert(events.take(events.len() as int) == events);
        assert(0 <= unread_after(me, events) <= channel.capacity());
        assert(0 <= unread_after(me, earlier) <= channel.capacity());
        assert forall|j: int| 0 <= j < end.outcomes.len() implies
            #[trigger] end.outcomes[j] == (RecvOutcome::Message {
                sequence: j as nat,
                msg: sends_of(events)[j],
            }) by {
            if j < before.outcomes.len() {
                assert(end.outcomes[j] == before.outcomes[j]);
            }
        }
    }
}

/// Each message that a receiver is handed has a sequence number from the
/// receiver's first cursor on, and is the message that was sent under that
/// number.
pub proof fn law_messages_are_the_sent_ones<T>(start: Watch<T>, me: nat, events: Seq<Event<T>>)
    requires
        start.outcomes.len() == 0,
    ensures
        ({
            let end = start.run(me, events);
            forall|i: int|
                0 <= i < end.outcomes.len() && #[trigger] end.outcomes[i] is Message ==> {
                    &&& start.cursor <= end.outcomes[i]->sequence < end.channel.next_sequence()
                    &&& end.outcomes[i]->msg == end.channel.sent()[end.outcomes[i]->sequence as int]
                }
        }),
    decreases events.len(),
{
    if events.len() > 0 {
        let earlier = events.drop_last();
        let before = start.run(me, earlier);
        let end = start.run(me, events);
        law_messages_are_the_sent_ones(start, me, earlier);
        law_runs_only_add(start, me, earlier);
        assert forall|i: int|
            0 <= i < end.outcomes.len() && #[trigger] end.outcomes[i] is Message implies {
            &&& start.cursor <= end.outcomes[i]->sequence < end.channel.next_sequence()
            &&& end.outcomes[i]->msg == end.channel.sent()[end.outcomes[i]->sequence as int]
        } by {
            if i < before.outcomes.len() {
                assert(end.outcomes[i] == before.outcomes[i]);
            }
        }
    }
}

/// A receiver never receives a message that was sent before it
/// subscribed: of the messages that the channel had then, it is handed
/// none.
pub proof fn law_nothing_from_before<T>(channel: ChannelView<T>, me: nat, events: Seq<Event<T>>)
    ensures
        ({
            let end = Watch::subscribed(channel).run(me, events);
            forall|i: int|
                0 <= i < end.outcomes.len() && #[trigger] end.outcomes[i] is Message
                    ==> end.outcomes[i]->sequence >= channel.sent().len()
        }),
{
    law_messages_are_the_sent_ones(Watch::subscribed(channel), me, events);
}

/// A receiver that is more than the capacity behind is told of its lag by
/// the next receive, with the exact number of messages that it missed, and
/// stands at the oldest message kept, which the receive after that hands
/// out.
pub proof fn law_lag_counts_the_missed<T>(channel: ChannelView<T>, cursor: nat)
    requires
        channel.valid(),
        channel.next_sequence() - cursor > channel.capacity(),
    ensures
        ({
            let oldest = channel.oldest_retained_sequence();
            let missed = (channel.next_sequence() - cursor - channel.capacity()) as nat;
            &&& recv_outcome(channel, cursor) == RecvOutcome::<T>::Lagged { skipped: missed }
            &&& cursor + missed == oldest
            &&& cursor_after(channel, cursor) == oldest
            &&& recv_outcome(channel, oldest) == (RecvOutcome::Message {
                sequence: oldest,
                msg: channel.sent()[oldest as int],
            })
        }),
{
}

/// The sender that goes last closes the channel.
pub proof fn law_last_sender_closes<T>(channel: ChannelView<T>)
    requires
        channel.senders_alive == 1,
    ensures
        channel.drop_sender().closed,
        channel.drop_sender().senders_alive == 0,
{
}

/// On a closed channel, whatever is done to it afterwards, no message is
/// added, and a receiver first receives what it has not read: a receiver
/// that fell behind is told so once, then come the messages still kept, in
/// order; from then on every receive answers `Closed`. A receiver that has
/// read them all gets `Closed` at once.
pub proof fn law_closed_after_draining<T>(
    channel: ChannelView<T>,
    cursor: nat,
    me: nat,
    events: Seq<Event<T>>,
)
    requires
        channel.closed,
        cursor <= channel.next_sequence(),
    ensures
        ({
            let end = Watch::begin(channel, cursor).run(me, events);
            &&& end.channel.closed
            &&& end.channel.sent() == channel.sent()
            &&& forall|i: int|
                0 <= i < end.outcomes.len() ==> #[trigger] end.outcomes[i] == nth_on_closed(
                    channel,
                    cursor,
                    i,
                )
            &&& cursor == channel.next_sequence() ==> forall|i: int|
                0 <= i < end.outcomes.len() ==> #[trigger] end.outcomes[i]
                    == RecvOutcome::<T>::Closed
        }),
{
    lemma_closed_run(channel, cursor, me, events);
}

/// The run on a closed channel, with the place that the cursor has reached.
proof fn lemma_closed_run<T>(
    channel: ChannelView<T>,
    cursor: nat,
    me: nat,
    events: Seq<Event<T>>,
)
    requires
        channel.closed,
        cursor <= channel.next_sequence(),
    ensures
        ({
            let end = Watch::begin(channel, cursor).run(me, events);
            let oldest = channel.oldest_retained_sequence();
            let lagged: int = if cursor < oldest { 1 } else { 0 };
            let first: int = if cursor < oldest { oldest as int } else { cursor as int };
            let unread = channel.next_sequence() - first;
            &&& end.channel.closed
            &&& end.channel.sent() == channel.sent()
            &&& end.channel.capacity() == channel.capacity()
            &&& end.cursor == if end.outcomes.len() == 0 {
                cursor as int
            } else if end.outcomes.len() - lagged <= unread {
                first + end.outcomes.len() - lagged
            } else {
                first + unread
            }
            &&& forall|i: int|
                0 <= i < end.outcomes.len() ==> #[trigger] end.outcomes[i] == nth_on_closed(
                    channel,
                    cursor,
                    i,
                )
        }),
    decreases events.len(),
{
    let start = Watch::begin(channel, cursor);
    if events.len() > 0 {
        let earlier = events.drop_last();
        let before = start.run(me, earlier);
        let end = start.run(me, events);
        lemma_closed_run(channel, cursor, me, earlier);
        assert forall|i: int| 0 <= i < end.outcomes.len() implies
            #[trigger] end.outcomes[i] == nth_on_closed(channel, cursor, i) by {
            if i < before.outcomes.len() {
                assert(end.outcomes[i] == before.outcomes[i]);
            }
        }
    }
}

/// Two receivers that subscribe at the same moment and never lag receive
/// the same messages in the same order, as far as both have received.
pub proof fn law_receivers_agree<T>(
    channel: ChannelView<T>,
    cursor: nat,
    a: nat,
    b: nat,
    events: Seq<Event<T>>,
)
    requires
        cursor <= channel.next_sequence(),
        never_lagged(Watch::begin(channel, cursor).run(a, events).outcomes),
        never_lagged(Watch::begin(channel, cursor).run(b, events).outcomes),
    ensures
        ({
            let seen_by_a = messages_of(Watch::begin(channel, cursor).run(a, events).outcomes);
            let seen_by_b = messages_of(Watch::begin(channel, cursor).run(b, events).outcomes);
            forall|j: int|
                0 <= j < seen_by_a.len() && j < seen_by_b.len() ==> seen_by_a[j] == seen_by_b[j]
        }),
{
    law_no_gaps_without_lag(channel, cursor, a, events);
    law_no_gaps_without_lag(channel, cursor, b, events);
    law_one_channel_for_all(Watch::begin(channel, cursor), a, b, events);
}

/// Two receivers of one channel that are handed a message under the same
/// sequence number are handed the same message, whether or not they lagged.
pub proof fn law_same_number_same_message<T>(
    channel: ChannelView<T>,
    cursor_of_a: nat,
    cursor_of_b: nat,
    a: nat,
    b: nat,
    events: Seq<Event<T>>,
)
    ensures
        ({
            let seen_by_a = Watch::begin(channel, cursor_of_a).run(a, events).outcomes;
            let seen_by_b = Watch::begin(channel, cursor_of_b).run(b, events).outcomes;
            forall|i: int, j: int|
                0 <= i < seen_by_a.len() && 0 <= j < seen_by_b.len()
                    && #[trigger] seen_by_a[i] is Message && #[trigger] seen_by_b[j] is Message
                    && seen_by_a[i]->sequence == seen_by_b[j]->sequence ==> seen_by_a[i]->msg
                    == seen_by_b[j]->msg
        }),
{
    let start_of_a = Watch::begin(channel, cursor_of_a);
    let start_of_b = Watch::begin(channel, cursor_of_b);
    law_messages_are_the_sent_ones(start_of_a, a, events);
    law_messages_are_the_sent_ones(start_of_b, b, events);
    law_one_channel_for_all(start_of_a, a, b, events);
    lemma_channel_ignores_the_cursor(channel, cursor_of_a, cursor_of_b, b, events);
}

/// The channel goes the same way wherever the watched receiver stands.
proof fn lemma_channel_ignores_the_cursor<T>(
    channel: ChannelView<T>,
    one: nat,
    other: nat,
    me: nat,
    events: Seq<Event<T>>,
)
    ensures
        Watch::begin(channel, one).run(me, events).channel == Watch::begin(channel, other).run(
            me,
            events,
        ).channel,
    decreases events.len(),
{
    if events.len() > 0 {
        lemma_channel_ignores_the_cursor(channel, one, other, me, events.drop_last());
    }
}

/// A receiver gets the messages by growing sequence number, none of them
/// twice, and without a gap between two messages that follow each other
/// directly: a gap is always reported as a lag in between.
pub proof fn law_no_duplicates_no_silent_gaps<T>(
    start: Watch<T>,
    me: nat,
    events: Seq<Event<T>>,
)
    requires
        start.outcomes.len() == 0,
    ensures
        ({
            let seen = start.run(me, events).outcomes;
            &&& forall|i: int, j: int|
                0 <= i < j < seen.len() && #[trigger] seen[i] is Message
                    && #[trigger] seen[j] is Message ==> seen[i]->sequence < seen[j]->sequence
            &&& forall|i: int|
                0 <= i && i + 1 < seen.len() && #[trigger] seen[i] is Message && seen[i + 1]
                    is Message ==> seen[i + 1]->sequence == seen[i]->sequence + 1
        }),
{
    lemma_cursor_follows_outcomes(start, me, events);
}

/// Each message handed out lies before the cursor, and the cursor stands
/// right behind the message that was handed out last.
proof fn lemma_cursor_follows_outcomes<T>(start: Watch<T>, me: nat, events: Seq<Event<T>>)
    requires
        start.outcomes.len() == 0,
    ensures
        ({
            let end = start.run(me, events);
            let seen = end.outcomes;
            &&& forall|i: int|
                0 <= i < seen.len() && #[trigger] seen[i] is Message ==> seen[i]->sequence
                    < end.cursor
            &&& seen.len() > 0 && seen.last() is Message ==> end.cursor == seen.last()->sequence
                + 1
            &&& forall|i: int, j: int|
                0 <= i < j < seen.len() && #[trigger] seen[i] is Message
                    && #[trigger] seen[j] is Message ==> seen[i]->sequence < seen[j]->sequence
            &&& forall|i: int|
                0 <= i && i + 1 < seen.len() && #[trigger] seen[i] is Message && seen[i + 1]
                    is Message ==> seen[i + 1]->sequence == seen[i]->sequence + 1
        }),
    decreases events.len(),
{
    if events.len() > 0 {
        let earlier = events.drop_last();
        let before = start.run(me, earlier);
        let end = start.run(me, events);
        lemma_cursor_follows_outcomes(start, me, earlier);
        assert forall|i: int| 0 <= i < before.outcomes.len() implies
            #[trigger] end.outcomes[i] == before.outcomes[i] by {}
    }
}

/// A collect that comes before the scheduled receive has finished answers
/// `NotReady` and leaves the receive pending.
pub proof fn law_collect_too_early<M>(bridge: BridgeState<M>)
    ensures
        bridge.start().collected() == Err::<M, CollectError>(
            CollectError::Bridge(BridgeError::NotReady),
        ),
        bridge.start().after_collect() == BridgeState::<M>::Pending,
{
}

/// Once the scheduled receive has finished, a collect hands out what the
/// receive returned, and the bridge is idle again.
pub proof fn law_collect_hands_out_the_result<M>(
    bridge: BridgeState<M>,
    result: Result<M, RecvError>,
)
    ensures
        bridge.start().complete(result).collected() == handed_out(result),
        bridge.start().complete(result).after_collect() == BridgeState::<M>::Idle,
        result matches Ok(msg) ==> handed_out(result) == Ok::<M, CollectError>(msg),
        result matches Err(e) ==> handed_out(result) == Err::<M, CollectError>(
            CollectError::Recv(e),
        ),
{
}

} // verus!
