use bcast_channels::channel::{Channel, DEFAULT_CAPACITY};
use bcast_channels::error::{ConfigError, RecvError, SendError};
use bcast_channels::receiver::Receiver;

fn open_channel(capacity: usize) -> Channel<char> {
    match Channel::create(capacity) {
        Ok(channel) => channel,
        Err(e) => panic!("capacity {} refused: {:?}", capacity, e),
    }
}

#[test]
fn zero_capacity_is_refused() {
    let made: Result<Channel<char>, ConfigError> = Channel::create(0);
    assert_eq!(made.err(), Some(ConfigError::ZeroCapacity));
}

#[test]
fn a_created_channel_is_empty_and_open() {
    let channel = open_channel(3);
    assert_eq!(channel.capacity(), 3);
    assert_eq!(channel.next_sequence(), 0);
    assert_eq!(channel.oldest_retained_sequence(), 0);
    assert_eq!(channel.senders_alive(), 0);
    assert_eq!(channel.receivers_alive(), 0);
    assert!(!channel.is_closed());
    assert!(channel.accepts());
    assert_eq!(channel.get(0), None);
}

#[test]
fn the_default_capacity_is_sixteen() {
    let channel: Channel<u8> = Channel::new();
    assert_eq!(DEFAULT_CAPACITY, 16);
    assert_eq!(channel.capacity(), 16);
    assert_eq!(channel.next_sequence(), 0);
}

#[test]
fn append_hands_out_growing_sequence_numbers() {
    let mut channel = open_channel(2);
    assert_eq!(channel.append('a'), 0);
    assert_eq!(channel.append('b'), 1);
    assert_eq!(channel.append('c'), 2);
    assert_eq!(channel.next_sequence(), 3);
}

#[test]
fn oldest_retained_is_next_minus_capacity_or_zero() {
    let mut channel = open_channel(3);
    let mut sent: u64 = 0;
    while sent < 8 {
        let expected = if sent > 3 { sent - 3 } else { 0 };
        assert_eq!(channel.oldest_retained_sequence(), expected);
        channel.append('x');
        sent += 1;
    }
    assert_eq!(channel.oldest_retained_sequence(), 5);
}

#[test]
fn a_full_channel_evicts_the_oldest_message() {
    let mut channel = open_channel(2);
    channel.append('a');
    channel.append('b');
    assert_eq!(channel.get(0), Some(&'a'));
    assert_eq!(channel.get(1), Some(&'b'));
    channel.append('c');
    assert_eq!(channel.get(0), None);
    assert_eq!(channel.get(1), Some(&'b'));
    assert_eq!(channel.get(2), Some(&'c'));
    assert_eq!(channel.get(3), None);
}

#[test]
fn sending_without_receivers_is_no_error() {
    let mut channel = open_channel(4);
    let sender = channel.new_sender();
    assert_eq!(channel.receivers_alive(), 0);
    assert_eq!(sender.send(&mut channel, 'a'), Ok(()));
    assert_eq!(channel.next_sequence(), 1);
    assert_eq!(channel.get(0), Some(&'a'));
}

#[test]
fn receive_right_after_each_send_never_lags() {
    let mut channel = open_channel(2);
    let sender = channel.new_sender();
    let mut receiver = channel.new_receiver();
    assert_eq!(sender.send(&mut channel, 'A'), Ok(()));
    assert_eq!(receiver.recv(&channel), Ok(Some(&'A')));
    assert_eq!(sender.send(&mut channel, 'B'), Ok(()));
    assert_eq!(receiver.recv(&channel), Ok(Some(&'B')));
    assert_eq!(sender.send(&mut channel, 'C'), Ok(()));
    assert_eq!(receiver.recv(&channel), Ok(Some(&'C')));
    assert_eq!(receiver.recv(&channel), Ok(None));
}

#[test]
fn three_sends_into_capacity_two_lag_by_one() {
    let mut channel = open_channel(2);
    let sender = channel.new_sender();
    let mut receiver = channel.new_receiver();
    assert_eq!(sender.send(&mut channel, 'A'), Ok(()));
    assert_eq!(sender.send(&mut channel, 'B'), Ok(()));
    assert_eq!(sender.send(&mut channel, 'C'), Ok(()));
    assert_eq!(receiver.recv(&channel), Err(RecvError::Lagged(1)));
    assert_eq!(receiver.recv(&channel), Ok(Some(&'B')));
    assert_eq!(receiver.recv(&channel), Ok(Some(&'C')));
    assert_eq!(receiver.recv(&channel), Ok(None));
}

#[test]
fn in_order_delivery_when_never_outrun() {
    let mut channel: Channel<u32> = match Channel::create(4) {
        Ok(channel) => channel,
        Err(_) => panic!("capacity 4 refused"),
    };
    let sender = channel.new_sender();
    let mut receiver = Receiver::subscribe(&mut channel);
    let mut seen: Vec<u32> = Vec::new();
    let mut next: u32 = 0;
    while next < 20 {
        // Four sends fill the channel, four receives drain it.
        let mut burst: u32 = 0;
        while burst < 4 {
            assert_eq!(sender.send(&mut channel, next + burst), Ok(()));
            burst += 1;
        }
        let mut drained: u32 = 0;
        while drained < 4 {
            match receiver.recv(&channel) {
                Ok(Some(msg)) => seen.push(*msg),
                other => panic!("unexpected {:?}", other),
            }
            drained += 1;
        }
        next += 4;
    }
    let expected: Vec<u32> = (0..20).collect();
    assert_eq!(seen, expected);
    assert_eq!(receiver.cursor(), 20);
}

#[test]
fn a_late_subscriber_sees_nothing_sent_before() {
    let mut channel = open_channel(8);
    let sender = channel.new_sender();
    assert_eq!(sender.send(&mut channel, 'a'), Ok(()));
    assert_eq!(sender.send(&mut channel, 'b'), Ok(()));
    assert_eq!(sender.send(&mut channel, 'c'), Ok(()));
    let mut receiver = channel.new_receiver();
    assert_eq!(receiver.cursor(), 3);
    assert_eq!(receiver.recv(&channel), Ok(None));
    assert_eq!(sender.send(&mut channel, 'd'), Ok(()));
    assert_eq!(receiver.recv(&channel), Ok(Some(&'d')));
    assert_eq!(receiver.recv(&channel), Ok(None));
}

#[test]
fn lag_reports_exactly_the_missed_messages() {
    let mut channel: Channel<u64> = match Channel::create(3) {
        Ok(channel) => channel,
        Err(_) => panic!("capacity 3 refused"),
    };
    let sender = channel.new_sender();
    let mut receiver = channel.new_receiver();
    let mut n: u64 = 0;
    while n < 10 {
        assert_eq!(sender.send(&mut channel, 100 + n), Ok(()));
        n += 1;
    }
    // Ten sent, three kept: seven are gone.
    assert_eq!(receiver.recv(&channel), Err(RecvError::Lagged(7)));
    assert_eq!(receiver.cursor(), 7);
    assert_eq!(receiver.recv(&channel), Ok(Some(&107)));
    assert_eq!(receiver.recv(&channel), Ok(Some(&108)));
    assert_eq!(receiver.recv(&channel), Ok(Some(&109)));
    assert_eq!(receiver.recv(&channel), Ok(None));
}

#[test]
fn exactly_capacity_behind_is_no_lag() {
    let mut channel = open_channel(3);
    let sender = channel.new_sender();
    let mut receiver = channel.new_receiver();
    assert_eq!(sender.send(&mut channel, 'a'), Ok(()));
    assert_eq!(sender.send(&mut channel, 'b'), Ok(()));
    assert_eq!(sender.send(&mut channel, 'c'), Ok(()));
    assert_eq!(receiver.recv(&channel), Ok(Some(&'a')));
}

#[test]
fn a_lagging_receiver_can_lag_again() {
    let mut channel = open_channel(1);
    let sender = channel.new_sender();
    let mut receiver = channel.new_receiver();
    assert_eq!(sender.send(&mut channel, 'a'), Ok(()));
    assert_eq!(sender.send(&mut channel, 'b'), Ok(()));
    assert_eq!(receiver.recv(&channel), Err(RecvError::Lagged(1)));
    assert_eq!(sender.send(&mut channel, 'c'), Ok(()));
    assert_eq!(sender.send(&mut channel, 'd'), Ok(()));
    assert_eq!(receiver.recv(&channel), Err(RecvError::Lagged(2)));
    assert_eq!(receiver.recv(&channel), Ok(Some(&'d')));
}

#[test]
fn closed_once_the_last_sender_is_dropped() {
    let mut channel = open_channel(4);
    let first = channel.new_sender();
    let second = first.clone(&mut channel);
    let mut receiver = channel.new_receiver();
    assert_eq!(channel.senders_alive(), 2);
    assert_eq!(receiver.recv(&channel), Ok(None));
    assert!(!channel.drop_sender(first));
    assert!(!channel.is_closed());
    assert_eq!(receiver.recv(&channel), Ok(None));
    assert!(channel.drop_sender(second));
    assert!(channel.is_closed());
    assert_eq!(channel.senders_alive(), 0);
    assert_eq!(receiver.recv(&channel), Err(RecvError::Closed));
    assert_eq!(receiver.recv(&channel), Err(RecvError::Closed));
}

#[test]
fn unread_messages_are_drained_before_closed() {
    let mut channel = open_channel(4);
    let sender = channel.new_sender();
    let mut receiver = channel.new_receiver();
    assert_eq!(sender.send(&mut channel, 'a'), Ok(()));
    assert_eq!(sender.send(&mut channel, 'b'), Ok(()));
    assert!(channel.drop_sender(sender));
    assert_eq!(receiver.recv(&channel), Ok(Some(&'a')));
    assert_eq!(receiver.recv(&channel), Ok(Some(&'b')));
    assert_eq!(receiver.recv(&channel), Err(RecvError::Closed));
    assert_eq!(receiver.cursor(), 2);
}

#[test]
fn a_receiver_made_after_the_close_is_closed_at_once() {
    let mut channel = open_channel(4);
    let sender = channel.new_sender();
    assert_eq!(sender.send(&mut channel, 'a'), Ok(()));
    channel.drop_sender(sender);
    let mut receiver = channel.new_receiver();
    assert_eq!(receiver.recv(&channel), Err(RecvError::Closed));
}

#[test]
fn a_closed_channel_refuses_to_send() {
    let mut channel = open_channel(4);
    let sender = channel.new_sender();
    assert_eq!(sender.send(&mut channel, 'a'), Ok(()));
    assert!(channel.drop_sender(sender));
    let late = channel.new_sender();
    assert!(channel.is_closed());
    assert!(!channel.accepts());
    assert_eq!(late.send(&mut channel, 'b'), Err(SendError::Closed));
    assert_eq!(channel.next_sequence(), 1);
    assert_eq!(channel.get(1), None);
    // The second drop finds the channel closed already.
    assert!(!channel.drop_sender(late));
    assert!(channel.is_closed());
}

#[test]
fn dropping_a_sender_that_is_not_counted_changes_nothing() {
    let mut one = open_channel(2);
    let mut other = open_channel(2);
    let stray = other.new_sender();
    assert!(!one.drop_sender(stray));
    assert_eq!(one.senders_alive(), 0);
    assert!(!one.is_closed());
}

#[test]
fn receivers_are_counted() {
    let mut channel = open_channel(2);
    let first = channel.new_receiver();
    let second = Receiver::subscribe(&mut channel);
    assert_eq!(channel.receivers_alive(), 2);
    channel.drop_receiver(first);
    assert_eq!(channel.receivers_alive(), 1);
    channel.drop_receiver(second);
    assert_eq!(channel.receivers_alive(), 0);
    let stray = Receiver::subscribe(&mut open_channel(1));
    channel.drop_receiver(stray);
    assert_eq!(channel.receivers_alive(), 0);
}

#[test]
fn two_receivers_see_the_same_messages() {
    let mut channel = open_channel(4);
    let sender = channel.new_sender();
    let mut early = channel.new_receiver();
    let mut late = channel.new_receiver();
    assert_eq!(sender.send(&mut channel, 'a'), Ok(()));
    assert_eq!(early.recv(&channel), Ok(Some(&'a')));
    assert_eq!(sender.send(&mut channel, 'b'), Ok(()));
    assert_eq!(sender.send(&mut channel, 'c'), Ok(()));
    assert_eq!(late.recv(&channel), Ok(Some(&'a')));
    assert_eq!(late.recv(&channel), Ok(Some(&'b')));
    assert_eq!(early.recv(&channel), Ok(Some(&'b')));
    assert_eq!(early.recv(&channel), Ok(Some(&'c')));
    assert_eq!(late.recv(&channel), Ok(Some(&'c')));
    assert_eq!(early.recv(&channel), Ok(None));
    assert_eq!(late.recv(&channel), Ok(None));
}

#[test]
fn one_receiver_lagging_does_not_disturb_another() {
    let mut channel = open_channel(2);
    let sender = channel.new_sender();
    let mut quick = channel.new_receiver();
    let mut slow = channel.new_receiver();
    let mut n: u8 = 0;
    while n < 5 {
        let msg = (b'a' + n) as char;
        assert_eq!(sender.send(&mut channel, msg), Ok(()));
        assert_eq!(quick.recv(&channel), Ok(Some(&msg)));
        n += 1;
    }
    assert_eq!(slow.recv(&channel), Err(RecvError::Lagged(3)));
    assert_eq!(slow.recv(&channel), Ok(Some(&'d')));
    assert_eq!(slow.recv(&channel), Ok(Some(&'e')));
    assert_eq!(quick.recv(&channel), Ok(None));
}

#[test]
fn a_receiver_ahead_of_the_channel_waits() {
    let mut busy = open_channel(2);
    busy.append('a');
    busy.append('b');
    let mut receiver = busy.new_receiver();
    let quiet = open_channel(2);
    assert_eq!(receiver.recv(&quiet), Ok(None));
    assert_eq!(receiver.cursor(), 2);
}
