//! The backlog: a ring of fixed size that keeps the most recent messages and
//! overwrites the oldest one when it is full.

use crate::message::{Message, MessageView};
use vstd::arithmetic::div_mod::{lemma_fundamental_div_mod, lemma_small_mod};
use vstd::prelude::*;

verus! {

/// The index of the oldest message still kept, when `published` messages have
/// gone into a ring of `capacity` slots. Indices count every message ever
/// published, from zero.
pub open spec fn first_kept(published: nat, capacity: nat) -> nat {
    if published > capacity {
        (published - capacity) as nat
    } else {
        0
    }
}

/// What a backlog is, mathematically: its size, and every message that ever
/// went into it, oldest first. Only the last `capacity` of them can be read.
pub struct BacklogView {
    pub capacity: nat,
    pub log: Seq<MessageView>,
}

impl BacklogView {
    /// The number of messages published so far: the index the next one gets.
    pub open spec fn head(self) -> nat {
        self.log.len()
    }

    /// The index of the oldest message that can still be read.
    pub open spec fn oldest(self) -> nat {
        first_kept(self.log.len(), self.capacity)
    }

    /// Whether the message with this index can still be read.
    pub open spec fn keeps(self, index: nat) -> bool {
        self.oldest() <= index < self.head()
    }

    /// The backlog after one more message.
    pub open spec fn push(self, message: MessageView) -> BacklogView {
        BacklogView { capacity: self.capacity, log: self.log.push(message) }
    }
}

/// Two indices less than a ring's size apart fall into different slots.
proof fn distinct_slots(low: int, high: int, size: int)
    requires
        0 <= low < high < low + size,
    ensures
        low % size != high % size,
{
    lemma_fundamental_div_mod(low, size);
    lemma_fundamental_div_mod(high, size);
    if low % size == high % size {
        let steps: int = high / size - low / size;
        assert(high - low == size * steps) by (nonlinear_arith)
            requires
                low == size * (low / size) + low % size,
                high == size * (high / size) + high % size,
                low % size == high % size,
                steps == high / size - low / size,
        ;
        assert(false) by (nonlinear_arith)
            requires
                0 < size * steps < size,
        ;
    }
}

/// A ring of `capacity` slots. The message with index `i` lives in slot
/// `i % capacity` until the message `capacity` places later overwrites it.
pub struct Backlog {
    capacity: usize,
    slots: Vec<Message>,
    head: u64,
    log: Ghost<Seq<MessageView>>,
}

impl View for Backlog {
    type V = BacklogView;

    closed spec fn view(&self) -> BacklogView {
        BacklogView { capacity: self.capacity as nat, log: self.log@ }
    }
}

impl Backlog {
    /// The ring holds exactly the kept messages, each in its slot.
    pub closed spec fn wf(&self) -> bool {
        &&& self.capacity >= 1
        &&& self.log@.len() == self.head
        &&& self.slots@.len() == if self.head < self.capacity {
            self.head as int
        } else {
            self.capacity as int
        }
        &&& forall|i: int|
            first_kept(self.head as nat, self.capacity as nat) <= i < self.head
                ==> self.slots@[i % (self.capacity as int)]@ == #[trigger] self.log@[i]
    }

    /// A well-formed backlog has room for at least one message.
    pub proof fn has_room(&self)
        requires
            self.wf(),
        ensures
            self@.capacity >= 1,
    {
    }

    /// An empty backlog of `capacity` slots.
    pub fn new(capacity: usize) -> (r: Backlog)
        requires
            capacity >= 1,
        ensures
            r.wf(),
            r@ == (BacklogView { capacity: capacity as nat, log: Seq::empty() }),
    {
        Backlog { capacity, slots: Vec::new(), head: 0, log: Ghost(Seq::empty()) }
    }

    /// The number of slots.
    pub fn capacity(&self) -> (r: usize)
        ensures
            r == self@.capacity,
    {
        self.capacity
    }

    /// The number of messages published so far.
    pub fn head(&self) -> (r: u64)
        requires
            self.wf(),
        ensures
            r == self@.head(),
    {
        self.head
    }

    /// The index of the oldest message that can still be read.
    pub fn oldest(&self) -> (r: u64)
        requires
            self.wf(),
        ensures
            r == self@.oldest(),
    {
        let size: u64 = self.capacity as u64;
        if self.head > size {
            self.head - size
        } else {
            0
        }
    }

    /// Stores one more message, over the oldest one if every slot is taken.
    pub fn push(&mut self, message: Message)
        requires
            old(self).wf(),
            old(self)@.head() < u64::MAX,
        ensures
            final(self).wf(),
            final(self)@ == old(self)@.push(message@),
    {
        let ghost before = *self;
        let ghost size = self.capacity as int;
        let ghost at = self.head as int;
        let ghost entry = message@;
        let slot: usize = (self.head % (self.capacity as u64)) as usize;
        if self.slots.len() < self.capacity {
            proof {
                lemma_small_mod(at as nat, size as nat);
            }
            self.slots.push(message);
        } else {
            self.slots.set(slot, message);
        }
        self.head = self.head + 1;
        self.log = Ghost(self.log@.push(entry));
        proof {
            assert forall|i: int|
                first_kept(self.head as nat, self.capacity as nat) <= i < self.head implies self.slots@[i
                % size]@ == #[trigger] self.log@[i] by {
                if i < at {
                    assert(before.log@[i] == self.log@[i]);
                    if at < size {
                        lemma_small_mod(i as nat, size as nat);
                    } else {
                        distinct_slots(i, at, size);
                    }
                }
            }
        }
    }

    /// A copy of the message with this index, if it can still be read.
    pub fn fetch(&self, index: u64) -> (r: Option<Message>)
        requires
            self.wf(),
        ensures
            match r {
                Some(message) => self@.keeps(index as nat) && message@ == self@.log[index as int],
                None => !self@.keeps(index as nat),
            },
    {
        if self.oldest() <= index && index < self.head {
            let slot: usize = (index % (self.capacity as u64)) as usize;
            proof {
                if self.head < self.capacity {
                    lemma_small_mod(index as nat, self.capacity as nat);
                }
                assert(self.slots@[slot as int]@ == self.log@[index as int]);
            }
            Some(self.slots[slot].clone())
        } else {
            None
        }
    }
}

} // verus!
