//! The delivery channel of a partition: a fixed-capacity ring buffer with
//! one read cursor per attached consumer. A consumer that falls more than
//! the capacity behind loses the oldest messages it has not read; the
//! sender is never blocked and the buffer never grows.

use vstd::prelude::*;
use vstd::string::*;
use crate::message::Message;

verus! {

/// The state of a delivery channel as a mathematical value.
#[verifier::ext_equal]
pub struct ChannelState<V> {
    /// How many messages the channel retains.
    pub capacity: nat,
    /// Every message ever sent, in order of sending.
    pub history: Seq<V>,
    /// For each attached consumer, the position in `history` it reads next.
    pub cursors: Map<Seq<char>, nat>,
}

impl<V> ChannelState<V> {
    /// A channel of the given capacity on which nothing was sent.
    pub open spec fn empty(capacity: nat) -> Self {
        ChannelState { capacity, history: Seq::empty(), cursors: Map::empty() }
    }

    /// The position of the oldest message that is still retained.
    pub open spec fn oldest(self) -> nat {
        if self.history.len() > self.capacity {
            (self.history.len() - self.capacity) as nat
        } else {
            0
        }
    }

    /// The state after sending `message`.
    pub open spec fn send(self, message: V) -> Self {
        ChannelState { history: self.history.push(message), ..self }
    }

    /// The state after `consumer` attaches: it will read what is sent from
    /// now on.
    pub open spec fn attach(self, consumer: Seq<char>) -> Self {
        ChannelState { cursors: self.cursors.insert(consumer, self.history.len()), ..self }
    }

    /// The state after `consumer` detaches.
    pub open spec fn detach(self, consumer: Seq<char>) -> Self {
        ChannelState { cursors: self.cursors.remove(consumer), ..self }
    }

    /// The position `consumer` reads next: its cursor, moved forward past
    /// what is no longer retained.
    pub open spec fn next_position(self, consumer: Seq<char>) -> nat {
        if self.cursors[consumer] < self.oldest() {
            self.oldest()
        } else {
            self.cursors[consumer]
        }
    }

    /// Whether a message is waiting for `consumer`.
    pub open spec fn has_pending(self, consumer: Seq<char>) -> bool {
        self.cursors.dom().contains(consumer) && self.next_position(consumer) < self.history.len()
    }

    /// How many messages are waiting for `consumer`.
    pub open spec fn pending(self, consumer: Seq<char>) -> nat {
        if self.has_pending(consumer) {
            (self.history.len() - self.next_position(consumer)) as nat
        } else {
            0
        }
    }

    /// How many messages `consumer` has lost for good: they were sent after
    /// its cursor and are no longer retained.
    pub open spec fn lost(self, consumer: Seq<char>) -> nat {
        if self.cursors.dom().contains(consumer) && self.cursors[consumer] < self.oldest() {
            (self.oldest() - self.cursors[consumer]) as nat
        } else {
            0
        }
    }

    /// What a poll by `consumer` delivers.
    pub open spec fn poll_result(self, consumer: Seq<char>) -> Option<V> {
        if self.has_pending(consumer) {
            Some(self.history[self.next_position(consumer) as int])
        } else {
            None
        }
    }

    /// The state after a poll by `consumer`: its cursor stands behind what
    /// was delivered; nothing changes when nothing was waiting.
    pub open spec fn after_poll(self, consumer: Seq<char>) -> Self {
        if self.has_pending(consumer) {
            ChannelState {
                cursors: self.cursors.insert(consumer, self.next_position(consumer) + 1),
                ..self
            }
        } else {
            self
        }
    }

    /// The state after sending every message of `messages`, in order.
    pub open spec fn send_all(self, messages: Seq<V>) -> Self
        decreases messages.len(),
    {
        if messages.len() == 0 {
            self
        } else {
            self.send_all(messages.drop_last()).send(messages.last())
        }
    }
}

/// Sending many messages appends them to the history and moves no cursor.
pub proof fn lemma_send_all<V>(s: ChannelState<V>, messages: Seq<V>)
    ensures
        s.send_all(messages).history == s.history + messages,
        s.send_all(messages).cursors == s.cursors,
        s.send_all(messages).capacity == s.capacity,
    decreases messages.len(),
{
    if messages.len() == 0 {
        assert(s.history + messages =~= s.history);
    } else {
        lemma_send_all(s, messages.drop_last());
        assert(s.history + messages =~= (s.history + messages.drop_last()).push(messages.last()));
    }
}

/// Delivery is lossy under load and bounded in memory: a consumer that
/// attaches and then reads nothing while more messages are sent than the
/// channel retains finds exactly `capacity` messages waiting, the newest
/// ones, and has lost the rest.
pub proof fn lemma_slow_consumer_loses_oldest<V>(
    s: ChannelState<V>,
    consumer: Seq<char>,
    messages: Seq<V>,
)
    requires
        s.capacity > 0,
        messages.len() > s.capacity,
    ensures
        ({
            let t = s.attach(consumer).send_all(messages);
            &&& t.pending(consumer) == s.capacity
            &&& t.pending(consumer) < messages.len()
            &&& t.lost(consumer) == messages.len() - s.capacity
            &&& t.poll_result(consumer) == Some(messages[messages.len() - s.capacity])
        }),
{
    lemma_send_all(s.attach(consumer), messages);
}

/// A consumer that keeps up loses nothing: when no more messages are sent
/// than the channel retains, all of them wait for the consumer, oldest first.
pub proof fn lemma_fast_consumer_loses_nothing<V>(
    s: ChannelState<V>,
    consumer: Seq<char>,
    messages: Seq<V>,
)
    requires
        0 < messages.len() <= s.capacity,
    ensures
        ({
            let t = s.attach(consumer).send_all(messages);
            &&& t.pending(consumer) == messages.len()
            &&& t.lost(consumer) == 0
            &&& t.poll_result(consumer) == Some(messages[0])
        }),
{
    lemma_send_all(s.attach(consumer), messages);
}

/// Each message is delivered to a consumer at most once, in the order of
/// sending: a poll moves the cursor past what it delivered, so the next poll
/// delivers a later message.
pub proof fn lemma_poll_advances<V>(s: ChannelState<V>, consumer: Seq<char>)
    requires
        s.has_pending(consumer),
    ensures
        s.after_poll(consumer).cursors[consumer] > s.next_position(consumer),
        s.after_poll(consumer).next_position(consumer) == s.next_position(consumer) + 1,
        s.after_poll(consumer).pending(consumer) == s.pending(consumer) - 1,
        s.after_poll(consumer).history == s.history,
{
}

proof fn lemma_slots_distinct(a: int, b: int, c: int)
    requires
        c > 0,
        0 <= a < b < a + c,
    ensures
        a % c != b % c,
{
    vstd::arithmetic::div_mod::lemma_fundamental_div_mod(a, c);
    vstd::arithmetic::div_mod::lemma_fundamental_div_mod(b, c);
    if a % c == b % c {
        let qa = a / c;
        let qb = b / c;
        assert(b - a == c * (qb - qa)) by (nonlinear_arith)
            requires
                a == c * qa + a % c,
                b == c * qb + b % c,
                a % c == b % c,
        ;
        assert(false) by (nonlinear_arith)
            requires
                b - a == c * (qb - qa),
                0 < b - a < c,
                c > 0,
        ;
    }
}

/// The read position of one attached consumer.
pub struct Cursor {
    pub consumer_id: String,
    pub next: u64,
}

/// A bounded broadcast channel: every attached consumer reads the same
/// sequence of messages through a cursor of its own.
pub struct BroadcastChannel<M: Message> {
    capacity: usize,
    slots: Vec<M>,
    sent: u64,
    cursors: Vec<Cursor>,
    state: Ghost<ChannelState<M::V>>,
}

impl<M: Message> BroadcastChannel<M> {
    /// The channel as a mathematical value.
    pub closed spec fn view(&self) -> ChannelState<M::V> {
        self.state@
    }

    /// The ring buffer holds the retained part of the history, and the
    /// cursors are those of the model.
    pub closed spec fn wf(&self) -> bool {
        &&& self.capacity > 0
        &&& self.state@.capacity == self.capacity
        &&& self.state@.history.len() == self.sent
        &&& self.slots@.len() == (if self.sent < self.capacity {
            self.sent as int
        } else {
            self.capacity as int
        })
        &&& forall|n: int|
            self.state@.oldest() <= n < self.sent ==> (#[trigger] self.slots@[n % (
            self.capacity as int)])@ == self.state@.history[n]
        &&& forall|i: int, j: int|
            0 <= i < self.cursors@.len() && 0 <= j < self.cursors@.len() && i != j
                ==> #[trigger] self.cursors@[i].consumer_id@ != #[trigger] self.cursors@[j].consumer_id@
        &&& forall|i: int|
            0 <= i < self.cursors@.len() ==> self.state@.cursors.dom().contains(
                (#[trigger] self.cursors@[i]).consumer_id@,
            ) && self.state@.cursors[self.cursors@[i].consumer_id@] == self.cursors@[i].next
                && self.cursors@[i].next <= self.sent
        &&& forall|id: Seq<char>|
            self.state@.cursors.dom().contains(id) ==> exists|i: int|
                0 <= i < self.cursors@.len() && #[trigger] self.cursors@[i].consumer_id@ == id
    }

    /// Creates a channel that retains `capacity` messages; `None` for a
    /// capacity of zero.
    pub fn new(capacity: usize) -> (channel: Option<Self>)
        ensures
            channel is Some <==> capacity > 0,
            channel matches Some(c) ==> c.wf() && c@ == ChannelState::<M::V>::empty(capacity as nat),
    {
        if capacity == 0 {
            None
        } else {
            Some(Self::bounded(capacity))
        }
    }

    /// Creates a channel that retains `capacity` messages.
    pub fn bounded(capacity: usize) -> (channel: Self)
        requires
            capacity > 0,
        ensures
            channel.wf(),
            channel@ == ChannelState::<M::V>::empty(capacity as nat),
    {
        BroadcastChannel {
            capacity,
            slots: Vec::new(),
            sent: 0,
            cursors: Vec::new(),
            state: Ghost(ChannelState::empty(capacity as nat)),
        }
    }

    /// A well-formed channel retains at least one message.
    pub proof fn lemma_capacity_positive(&self)
        requires
            self.wf(),
        ensures
            self@.capacity > 0,
    {
    }

    /// How many messages the channel retains.
    pub fn capacity(&self) -> (capacity: usize)
        requires
            self.wf(),
        ensures
            capacity == self@.capacity,
            capacity > 0,
    {
        self.capacity
    }

    /// How many messages were sent on the channel so far.
    pub fn total_sent(&self) -> (sent: u64)
        requires
            self.wf(),
        ensures
            sent == self@.history.len(),
    {
        self.sent
    }

    /// How many consumers are attached.
    pub fn receiver_count(&self) -> (count: usize)
        requires
            self.wf(),
        ensures
            self@.cursors.dom().finite(),
            count == self@.cursors.dom().len(),
    {
        proof {
            let ids = self.cursors@.map_values(|cursor: Cursor| cursor.consumer_id@);
            assert forall|id: Seq<char>| self@.cursors.dom().contains(id) <==> exists|i: int|
                0 <= i < ids.len() && #[trigger] ids[i] == id by {
                if self@.cursors.dom().contains(id) {
                    let i = choose|i: int|
                        0 <= i < self.cursors@.len() && #[trigger] self.cursors@[i].consumer_id@ == id;
                    assert(ids[i] == id);
                }
                if exists|i: int| 0 <= i < ids.len() && #[trigger] ids[i] == id {
                    let i = choose|i: int| 0 <= i < ids.len() && #[trigger] ids[i] == id;
                    assert(self.cursors@[i].consumer_id@ == id);
                }
            }
            assert forall|i: int, j: int|
                0 <= i < ids.len() && 0 <= j < ids.len() && i != j implies #[trigger] ids[i]
                != #[trigger] ids[j] by {
                assert(self.cursors@[i].consumer_id@ != self.cursors@[j].consumer_id@);
            }
            crate::topics::lemma_distinct_texts_count(ids, self@.cursors.dom());
        }
        self.cursors.len()
    }

    /// Sends `message` to every attached consumer. The oldest retained
    /// message is overwritten when the buffer is full.
    pub fn send(&mut self, message: M)
        requires
            old(self).wf(),
            old(self)@.history.len() < u64::MAX,
        ensures
            final(self).wf(),
            final(self)@ == old(self)@.send(message@),
    {
        let ghost cap = self.capacity as int;
        let ghost sent = self.sent as int;
        if self.slots.len() < self.capacity {
            assert(sent % cap == sent) by {
                vstd::arithmetic::div_mod::lemma_small_mod(sent as nat, cap as nat);
            }
            self.slots.push(message);
        } else {
            let slot = (self.sent % (self.capacity as u64)) as usize;
            self.slots.set(slot, message);
        }
        self.sent = self.sent + 1;
        proof {
            self.state@ = old(self).state@.send(message@);
            assert forall|n: int| self.state@.oldest() <= n < self.sent implies (
            #[trigger] self.slots@[n % cap])@ == self.state@.history[n] by {
                if n < sent {
                    if old(self).slots@.len() < cap {
                        vstd::arithmetic::div_mod::lemma_small_mod(n as nat, cap as nat);
                    } else {
                        lemma_slots_distinct(n, sent, cap);
                    }
                    assert(old(self).state@.oldest() <= n);
                    assert(old(self).slots@[n % cap]@ == old(self).state@.history[n]);
                }
            }
        }
    }

    fn find(&self, consumer_id: &String) -> (found: Option<usize>)
        requires
            self.wf(),
        ensures
            found matches Some(i) ==> i < self.cursors@.len() && self.cursors@[i as int].consumer_id@
                == consumer_id@,
            found is Some <==> self@.cursors.dom().contains(consumer_id@),
    {
        let mut i: usize = 0;
        while i < self.cursors.len()
            invariant
                self.wf(),
                i <= self.cursors.len(),
                forall|j: int| 0 <= j < i ==> #[trigger] self.cursors@[j].consumer_id@ != consumer_id@,
            decreases self.cursors.len() - i,
        {
            if self.cursors[i].consumer_id == *consumer_id {
                return Some(i);
            }
            i = i + 1;
        }
        None
    }

    fn put_cursor(&mut self, found: Option<usize>, cursor: Cursor)
        requires
            old(self).wf(),
            cursor.next <= old(self).sent,
            found matches Some(i) ==> i < old(self).cursors@.len() && old(self).cursors@[i as int].consumer_id@
                == cursor.consumer_id@,
            found is Some <==> old(self)@.cursors.dom().contains(cursor.consumer_id@),
        ensures
            final(self).wf(),
            final(self)@ == (ChannelState {
                cursors: old(self)@.cursors.insert(cursor.consumer_id@, cursor.next as nat),
                ..old(self)@
            }),
    {
        match found {
            Some(i) => {
                self.cursors.push(cursor);
                let _ = self.cursors.swap_remove(i);
                assert(self.cursors@ =~= old(self).cursors@.update(i as int, cursor));
            },
            None => {
                self.cursors.push(cursor);
            },
        }
        proof {
            let at = match found {
                Some(i) => i as int,
                None => old(self).cursors@.len() as int,
            };
            self.state@ = ChannelState {
                cursors: old(self).state@.cursors.insert(cursor.consumer_id@, cursor.next as nat),
                ..old(self).state@
            };
            assert(self.cursors@[at] == cursor);
            assert forall|k: int| 0 <= k < self.cursors@.len() && k != at implies self.cursors@[k]
                == old(self).cursors@[k] by {}
            assert forall|id: Seq<char>| self.state@.cursors.dom().contains(id) implies exists|i: int|
                0 <= i < self.cursors@.len() && #[trigger] self.cursors@[i].consumer_id@ == id by {
                if id == cursor.consumer_id@ {
                    assert(self.cursors@[at].consumer_id@ == id);
                } else {
                    let k = choose|k: int|
                        0 <= k < old(self).cursors@.len() && #[trigger] old(self).cursors@[k].consumer_id@
                            == id;
                    assert(self.cursors@[k].consumer_id@ == id);
                }
            }
        }
    }

    /// Attaches `consumer_id`: it will be delivered what is sent from now
    /// on. Attaching again moves the consumer's cursor to the present.
    pub fn attach(&mut self, consumer_id: &str)
        requires
            old(self).wf(),
        ensures
            final(self).wf(),
            final(self)@ == old(self)@.attach(consumer_id@),
    {
        let owned = String::from_str(consumer_id);
        let found = self.find(&owned);
        let next = self.sent;
        self.put_cursor(found, Cursor { consumer_id: owned, next });
    }

    /// Detaches `consumer_id`; does nothing if it is not attached.
    pub fn detach(&mut self, consumer_id: &str)
        requires
            old(self).wf(),
        ensures
            final(self).wf(),
            final(self)@ == old(self)@.detach(consumer_id@),
    {
        let owned = String::from_str(consumer_id);
        match self.find(&owned) {
            Some(i) => {
                let _ = self.cursors.swap_remove(i);
                proof {
                    let last = old(self).cursors@.len() - 1;
                    self.state@ = old(self).state@.detach(consumer_id@);
                    assert forall|id: Seq<char>| self.state@.cursors.dom().contains(id) implies exists|
                        k: int,
                    |
                        0 <= k < self.cursors@.len() && #[trigger] self.cursors@[k].consumer_id@
                            == id by {
                        let k = choose|k: int|
                            0 <= k < old(self).cursors@.len() && #[trigger] old(self).cursors@[k].consumer_id@
                                == id;
                        if k == last {
                            assert(self.cursors@[i as int].consumer_id@ == id);
                        } else {
                            assert(self.cursors@[k].consumer_id@ == id);
                        }
                    }
                }
            },
            None => {
                proof {
                    assert(old(self)@.cursors.remove(consumer_id@) =~= old(self)@.cursors);
                }
            },
        }
    }

    /// Whether `consumer_id` is attached.
    pub fn is_attached(&self, consumer_id: &str) -> (attached: bool)
        requires
            self.wf(),
        ensures
            attached == self@.cursors.dom().contains(consumer_id@),
    {
        let owned = String::from_str(consumer_id);
        self.find(&owned).is_some()
    }

    /// How many messages are waiting for `consumer_id`.
    pub fn pending(&self, consumer_id: &str) -> (count: u64)
        requires
            self.wf(),
        ensures
            count == self@.pending(consumer_id@),
    {
        let owned = String::from_str(consumer_id);
        match self.find(&owned) {
            Some(i) => {
                let oldest = self.sent - self.slots.len() as u64;
                let next = self.cursors[i].next;
                let start = if next < oldest {
                    oldest
                } else {
                    next
                };
                self.sent - start
            },
            None => 0,
        }
    }

    /// Delivers the next message to `consumer_id`, if one is waiting, and
    /// moves the consumer's cursor behind it. Messages that were overwritten
    /// before the consumer read them are skipped without an error.
    pub fn poll(&mut self, consumer_id: &str) -> (delivered: Option<M>)
        requires
            old(self).wf(),
        ensures
            final(self).wf(),
            final(self)@ == old(self)@.after_poll(consumer_id@),
            match delivered {
                Some(message) => old(self)@.poll_result(consumer_id@) == Some(message@),
                None => old(self)@.poll_result(consumer_id@) is None,
            },
    {
        let owned = String::from_str(consumer_id);
        let found = self.find(&owned);
        match found {
            Some(i) => {
                let oldest = self.sent - self.slots.len() as u64;
                let next = self.cursors[i].next;
                let start = if next < oldest {
                    oldest
                } else {
                    next
                };
                if start < self.sent {
                    let slot = (start % (self.capacity as u64)) as usize;
                    assert(slot < self.slots@.len()) by {
                        if self.sent < self.capacity {
                            vstd::arithmetic::div_mod::lemma_small_mod(
                                start as nat,
                                self.capacity as nat,
                            );
                        }
                    }
                    let message = self.slots[slot].duplicate();
                    self.put_cursor(found, Cursor { consumer_id: owned, next: start + 1 });
                    Some(message)
                } else {
                    None
                }
            },
            None => None,
        }
    }
}

} // verus!
