//! The fixed-capacity circular store behind a channel.
//!
//! Every appended message gets the next sequence number, counted from zero.
//! The buffer keeps the most recent `capacity` of them; an older one is
//! overwritten by the message that lands on its slot.

use vstd::arithmetic::div_mod::{lemma_mod_bound, lemma_mod_equivalence, lemma_small_mod};
use vstd::prelude::*;

use crate::error::ConfigError;

verus! {

/// What a ring buffer stands for: its capacity and every message that was
/// ever appended, indexed by sequence number. Only the tail of `sent` is
/// still stored; the rest is remembered here to say what was evicted.
pub struct RingView<T> {
    pub capacity: nat,
    pub sent: Seq<T>,
}

impl<T> RingView<T> {
    /// A buffer has room for at least one message.
    pub open spec fn valid(self) -> bool {
        self.capacity > 0
    }

    /// The view of a buffer to which nothing was appended yet.
    pub open spec fn empty(capacity: nat) -> Self {
        RingView { capacity, sent: Seq::empty() }
    }

    /// The sequence number that the next appended message will get.
    pub open spec fn next_sequence(self) -> nat {
        self.sent.len()
    }

    /// The lowest sequence number that can still be read:
    /// `max(0, next_sequence - capacity)`.
    pub open spec fn oldest_retained_sequence(self) -> nat {
        if self.sent.len() >= self.capacity {
            (self.sent.len() - self.capacity) as nat
        } else {
            0
        }
    }

    /// The slot that holds the message with this sequence number while it
    /// is stored.
    pub open spec fn slot_of(self, sequence: nat) -> int {
        sequence as int % self.capacity as int
    }

    /// The slots after `msg` was stored, given the slots before: the message
    /// takes the slot of its sequence number, which is a new slot as long as
    /// the buffer is not full.
    pub open spec fn store(self, slots: Seq<T>, msg: T) -> Seq<T> {
        if self.next_sequence() < self.capacity {
            slots.push(msg)
        } else {
            slots.update(self.slot_of(self.next_sequence()), msg)
        }
    }

    /// Whether the message with this sequence number is still stored.
    pub open spec fn retains(self, sequence: nat) -> bool {
        self.oldest_retained_sequence() <= sequence < self.next_sequence()
    }

    /// The stored messages, oldest first.
    pub open spec fn retained(self) -> Seq<T> {
        self.sent.subrange(self.oldest_retained_sequence() as int, self.sent.len() as int)
    }

    /// The view after one more message.
    pub open spec fn append(self, msg: T) -> Self {
        RingView { capacity: self.capacity, sent: self.sent.push(msg) }
    }
}

/// The slot of a sequence number lies inside the buffer, and a sequence
/// number below the capacity is its own slot.
proof fn lemma_slot_in_range(sequence: int, capacity: int)
    requires
        0 <= sequence,
        0 < capacity,
    ensures
        0 <= sequence % capacity < capacity,
        sequence < capacity ==> sequence % capacity == sequence,
{
    lemma_mod_bound(sequence, capacity);
    if sequence < capacity {
        lemma_small_mod(sequence as nat, capacity as nat);
    }
}

/// Two sequence numbers less than a capacity apart land on different slots.
proof fn lemma_slots_differ(earlier: int, later: int, capacity: int)
    requires
        0 <= earlier < later,
        later - earlier < capacity,
    ensures
        earlier % capacity != later % capacity,
{
    lemma_mod_equivalence(later, earlier, capacity);
    lemma_small_mod((later - earlier) as nat, capacity as nat);
}

/// A circular store of the most recent `capacity` messages.
pub struct RingBuffer<T> {
    /// Slot `i` holds the newest message whose sequence number is `i` modulo
    /// the capacity. The vector grows until it has `capacity` slots.
    slots: Vec<T>,
    capacity: usize,
    next_sequence: u64,
    history: Ghost<Seq<T>>,
}

impl<T> View for RingBuffer<T> {
    type V = RingView<T>;

    closed spec fn view(&self) -> RingView<T> {
        RingView { capacity: self.capacity as nat, sent: self.history@ }
    }
}

impl<T> RingBuffer<T> {
    /// What the slots hold, by slot number. There are as many slots as
    /// messages were appended, up to the capacity.
    pub closed spec fn slots(&self) -> Seq<T> {
        self.slots@
    }

    #[verifier::type_invariant]
    spec fn well_formed(self) -> bool {
        &&& self.capacity > 0
        &&& self.history@.len() == self.next_sequence
        &&& self.slots@.len() == if self.next_sequence as int <= self.capacity as int {
            self.next_sequence as int
        } else {
            self.capacity as int
        }
        &&& forall|s: int|
            self@.oldest_retained_sequence() <= s < self.next_sequence as int
                ==> self.slots@[s % (self.capacity as int)] == #[trigger] self.history@[s]
    }

    /// An empty buffer for `capacity` messages, or `ZeroCapacity` when
    /// `capacity` is zero.
    pub fn new(capacity: usize) -> (made: Result<Self, ConfigError>)
        ensures
            capacity == 0 <==> made is Err,
            made matches Ok(ring) ==> ring@ == RingView::<T>::empty(capacity as nat)
                && ring.slots().len() == 0,
            made matches Err(e) ==> e == ConfigError::ZeroCapacity,
    {
        if capacity == 0 {
            Err(ConfigError::ZeroCapacity)
        } else {
            Ok(Self::with_capacity(capacity))
        }
    }

    /// An empty buffer for `capacity` messages.
    pub(crate) fn with_capacity(capacity: usize) -> (ring: Self)
        requires
            capacity > 0,
        ensures
            ring@ == RingView::<T>::empty(capacity as nat),
            ring.slots().len() == 0,
    {
        RingBuffer { slots: Vec::new(), capacity, next_sequence: 0, history: Ghost(Seq::empty()) }
    }

    /// The number of messages that the buffer keeps.
    pub fn capacity(&self) -> (capacity: usize)
        ensures
            capacity == self@.capacity,
            capacity > 0,
    {
        proof {
            use_type_invariant(self);
        }
        self.capacity
    }

    /// The sequence number that the next appended message will get.
    pub fn next_sequence(&self) -> (next: u64)
        ensures
            next == self@.next_sequence(),
    {
        proof {
            use_type_invariant(self);
        }
        self.next_sequence
    }

    /// The lowest sequence number that can still be read.
    pub fn oldest_retained_sequence(&self) -> (oldest: u64)
        ensures
            oldest == self@.oldest_retained_sequence(),
    {
        proof {
            use_type_invariant(self);
        }
        let capacity: u64 = self.capacity as u64;
        if self.next_sequence >= capacity {
            self.next_sequence - capacity
        } else {
            0
        }
    }

    /// Stores `msg` under the next sequence number, which is returned. The
    /// message goes to the slot of that number; when the buffer is full,
    /// the oldest stored message is the one that it overwrites there.
    pub fn append(&mut self, msg: T) -> (sequence: u64)
        requires
            old(self)@.next_sequence() < u64::MAX,
        ensures
            final(self)@ == old(self)@.append(msg),
            sequence == old(self)@.next_sequence(),
            final(self).slots() == old(self)@.store(old(self).slots(), msg),
    {
        proof {
            use_type_invariant(&*self);
        }
        // The fields are taken out as a whole, so that the buffer is never
        // seen half updated.
        let mut taken = Self::with_capacity(1);
        std::mem::swap(self, &mut taken);
        let RingBuffer { mut slots, capacity, next_sequence, history } = taken;
        let ghost appended = msg;
        let slot: usize = (next_sequence % (capacity as u64)) as usize;
        proof {
            lemma_slot_in_range(next_sequence as int, capacity as int);
        }
        let ghost before = slots@;
        if slots.len() < capacity {
            slots.push(msg);
        } else {
            slots.set(slot, msg);
        }
        proof {
            let sent = history@.push(appended);
            let after = RingView { capacity: capacity as nat, sent };
            assert forall|s: int| after.oldest_retained_sequence() <= s < next_sequence + 1 implies
                slots@[s % (capacity as int)] == #[trigger] sent[s] by {
                lemma_slot_in_range(s, capacity as int);
                if s < next_sequence {
                    assert(before[s % (capacity as int)] == history@[s]);
                    if before.len() == capacity {
                        lemma_slots_differ(s, next_sequence as int, capacity as int);
                    }
                }
            }
        }
        *self = RingBuffer {
            slots,
            capacity,
            next_sequence: next_sequence + 1,
            history: Ghost(history@.push(appended)),
        };
        next_sequence
    }

    /// The message with the given sequence number, if it is still stored.
    pub fn get(&self, sequence: u64) -> (found: Option<&T>)
        ensures
            found is Some <==> self@.retains(sequence as nat),
            found matches Some(msg) ==> *msg == self@.sent[sequence as int] && *msg
                == self.slots()[self@.slot_of(sequence as nat)],
    {
        proof {
            use_type_invariant(self);
        }
        if self.oldest_retained_sequence() <= sequence && sequence < self.next_sequence {
            let slot: usize = (sequence % (self.capacity as u64)) as usize;
            proof {
                lemma_slot_in_range(sequence as int, self.capacity as int);
            }
            Some(&self.slots[slot])
        } else {
            None
        }
    }
}

} // verus!
