//! The broker of one partition: it registers clients, checks that it owns
//! the key of each published message, assigns offsets, records messages in
//! its storage engine and fans them out to the attached consumers.

use vstd::prelude::*;
use vstd::string::*;
use crate::broker_state::{
    deliver, handle_outcome, handled, handled_by, metrics_outcome, payload_total, process_outcome,
    publish_outcome, register_outcome, update_offset_outcome, without_identity, BrokerVerdict,
    BrokerView, Publication, Session,
};
use crate::channel::BroadcastChannel;
use crate::clock::unix_seconds_now;
use crate::errors::broker_error::{storage_outcome, BrokerError};
use crate::errors::storage_error::StorageError;
use crate::hooks::{OnRequestExecuted, OnRequestReceived};
use crate::hooks_integration::{
    fold_request, fold_response, outcome_of, ran_executed_hooks, ran_request_hooks,
    run_executed_hooks, run_request_hooks,
};
use crate::identity::{fresh_identifier, IDENTIFIER_LENGTH};
use crate::in_memory::InMemoryStorage;
use crate::message::{views, StoredMessage};
use crate::offsets::OffsetTracker;
use crate::partitioner::{partition_of, Partitioner};
use crate::protocol::{
    delivery_for, parse_role, BrokerMessage, ClientRole, ConsumeResponse, Metrics, Reply,
};
use crate::storage_engine::StorageEngine;
use crate::topics::{
    ensured, id_set, ids_distinct, lemma_push_fresh_id, position_of, subscribed, TopicRegistry,
};

verus! {

/// The number of messages a partition's delivery channel retains unless
/// another capacity is asked for.
pub const BROADCAST_CAPACITY: usize = 16384;

/// The broker of one partition.
pub struct Broker<S: StorageEngine<Msg = StoredMessage>, H> {
    partitioner: Partitioner,
    topics: TopicRegistry,
    channel: BroadcastChannel<ConsumeResponse>,
    message_counter: u64,
    consumer_offsets: OffsetTracker,
    producers: Vec<String>,
    consumers: Vec<String>,
    storage: S,
    on_request_received_hooks: Vec<H>,
    on_request_executed_hooks: Vec<H>,
}

impl<S: StorageEngine<Msg = StoredMessage>, H> Broker<S, H> {
    /// The broker as a mathematical value.
    pub closed spec fn view(&self) -> BrokerView {
        BrokerView {
            partition_id: self.partitioner.partition_id,
            total_partitions: self.partitioner.total_partitions,
            topics: self.topics@,
            offsets: self.consumer_offsets@,
            storage: self.storage.state(),
            channel: self.channel@,
            next_offset: self.message_counter as nat,
            producers: id_set(self.producers@),
            consumers: id_set(self.consumers@),
        }
    }

    /// The error with which the storage engine's last append, snapshot or
    /// recovery that failed did fail, if any did.
    pub closed spec fn last_storage_failure(&self) -> Option<StorageError> {
        self.storage.last_failure()
    }

    /// The request-received hooks, in the order in which they run.
    pub closed spec fn received_hooks(&self) -> Seq<H> {
        self.on_request_received_hooks@
    }

    /// The request-executed hooks, in the order in which they run.
    pub closed spec fn executed_hooks(&self) -> Seq<H> {
        self.on_request_executed_hooks@
    }

    /// The broker's invariant: its partition is one of the cluster's, its
    /// parts are well formed, and no more was sent on the channel than
    /// offsets were assigned.
    pub closed spec fn wf(&self) -> bool {
        &&& self.partitioner.wf()
        &&& self.topics.wf()
        &&& self.channel.wf()
        &&& self.consumer_offsets.wf()
        &&& self.storage.wf()
        &&& ids_distinct(self.producers@)
        &&& ids_distinct(self.consumers@)
        &&& self.message_counter <= i64::MAX
        &&& self.channel@.history.len() <= self.message_counter
    }

    /// What the invariant says of the view.
    pub proof fn lemma_wf_view(&self)
        requires
            self.wf(),
        ensures
            self@.partition_id < self@.total_partitions,
            self@.next_offset <= i64::MAX,
            self@.channel.history.len() <= self@.next_offset,
            self@.channel.capacity > 0,
    {
        self.channel.lemma_capacity_positive();
    }

    /// Creates the broker of partition `partition_id` out of
    /// `total_partitions`, on the given storage engine and with a delivery
    /// channel that retains `capacity` messages.
    pub fn with_storage(partition_id: u32, total_partitions: u32, storage: S, capacity: usize) -> (broker:
        Self)
        requires
            partition_id < total_partitions,
            capacity > 0,
            storage.wf(),
        ensures
            broker.wf(),
            broker@ == (BrokerView {
                storage: storage.state(),
                ..BrokerView::initial(partition_id, total_partitions, capacity as nat)
            }),
            broker.received_hooks() == Seq::<H>::empty(),
            broker.executed_hooks() == Seq::<H>::empty(),
    {
        let broker = Broker {
            partitioner: Partitioner { partition_id, total_partitions },
            topics: TopicRegistry::new(),
            channel: BroadcastChannel::bounded(capacity),
            message_counter: 0,
            consumer_offsets: OffsetTracker::new(),
            producers: Vec::new(),
            consumers: Vec::new(),
            storage,
            on_request_received_hooks: Vec::new(),
            on_request_executed_hooks: Vec::new(),
        };
        assert(broker@.producers =~= Set::empty());
        assert(broker@.consumers =~= Set::empty());
        broker
    }

    /// The partition this broker owns.
    pub fn partition_id(&self) -> (id: u32)
        ensures
            id == self@.partition_id,
    {
        self.partitioner.partition_id
    }

    /// The number of partitions of the cluster.
    pub fn total_partitions(&self) -> (total: u32)
        ensures
            total == self@.total_partitions,
    {
        self.partitioner.total_partitions
    }

    /// The partition that owns `key`.
    pub fn partition_for(&self, key: &str) -> (partition: u32)
        requires
            self.wf(),
        ensures
            partition == partition_of(key@, self@.total_partitions),
            partition < self@.total_partitions,
    {
        self.partitioner.partition_for(key)
    }

    /// Whether this broker's partition owns `key`.
    pub fn owns_partition(&self, key: &str) -> (owned: bool)
        requires
            self.wf(),
        ensures
            owned == self@.owns(key@),
    {
        self.partitioner.owns(key)
    }

    /// Creates `topic` if it does not exist.
    pub fn ensure_topic(&mut self, topic: &str)
        requires
            old(self).wf(),
        ensures
            final(self).wf(),
            final(self)@ == (BrokerView { topics: ensured(old(self)@.topics, topic@), ..old(self)@ }),
    {
        self.topics.ensure_topic(topic);
    }

    /// Records the offset of `consumer_id` on `topic`, unchecked.
    pub fn set_consumer_offset(&mut self, consumer_id: &str, topic: &str, offset: i64)
        requires
            old(self).wf(),
        ensures
            final(self).wf(),
            final(self)@ == (BrokerView {
                offsets: old(self)@.offsets.insert((consumer_id@, topic@), offset),
                ..old(self)@
            }),
    {
        self.consumer_offsets.set(consumer_id, topic, offset);
    }

    /// The offset recorded for `consumer_id` on `topic`, if any.
    pub fn consumer_offset(&self, consumer_id: &str, topic: &str) -> (offset: Option<i64>)
        requires
            self.wf(),
        ensures
            offset == (if self@.offsets.dom().contains((consumer_id@, topic@)) {
                Some(self@.offsets[(consumer_id@, topic@)])
            } else {
                None
            }),
    {
        self.consumer_offsets.get(consumer_id, topic)
    }

    /// The storage engine of the partition.
    pub fn storage(&self) -> (storage: &S)
        ensures
            storage.state() == self@.storage,
            storage.last_failure() == self.last_storage_failure(),
            self.wf() ==> storage.wf(),
    {
        &self.storage
    }

    /// Publishes a message under the identifier `message_id`, accepted at
    /// time `now`.
    pub fn publish_with(
        &mut self,
        key: String,
        topic: String,
        payload: Vec<u8>,
        message_id: String,
        now: i64,
    ) -> (result: Result<Reply, BrokerError>)
        requires
            old(self).wf(),
        ensures
            final(self).wf(),
            final(self).received_hooks() == old(self).received_hooks(),
            final(self).executed_hooks() == old(self).executed_hooks(),
            publish_outcome(
                old(self)@,
                Publication { key: key@, topic: topic@, payload: payload@, message_id: message_id@, now },
                final(self)@,
                result,
                S::reliable(),
            ),
            result matches Err(BrokerError::StorageError(error)) ==> final(self).last_storage_failure()
                == Some(error),
    {
        let owner = self.partitioner.partition_for(key.as_str());
        let partition = self.partitioner.partition_id;
        if owner != partition {
            return Err(BrokerError::OwnershipError { owner, partition });
        }
        if self.message_counter >= i64::MAX as u64 {
            return Err(BrokerError::InternalError(String::from_str("Offset counter exhausted")));
        }
        self.topics.ensure_topic(topic.as_str());
        let offset = self.message_counter as i64;
        self.message_counter = self.message_counter + 1;
        let record = StoredMessage { message_id, topic, key, payload, offset, created_at: now };
        let delivery = delivery_for(&record);
        match storage_outcome(self.storage.append(record)) {
            Ok(()) => {
                self.channel.send(delivery);
                Ok(Reply::Published { partition, offset })
            },
            Err(e) => Err(e),
        }
    }

    /// Publishes a message: gives it a fresh identifier and the current
    /// time, and does what [`Broker::publish_with`] does with them.
    pub fn publish(&mut self, key: String, topic: String, payload: Vec<u8>) -> (result: Result<
        Reply,
        BrokerError,
    >)
        requires
            old(self).wf(),
        ensures
            final(self).wf(),
            final(self).received_hooks() == old(self).received_hooks(),
            final(self).executed_hooks() == old(self).executed_hooks(),
            exists|message_id: Seq<char>, now: i64|
                now >= 0 && message_id.len() == IDENTIFIER_LENGTH && #[trigger] publish_outcome(
                    old(self)@,
                    Publication { key: key@, topic: topic@, payload: payload@, message_id, now },
                    final(self)@,
                    result,
                    S::reliable(),
                ),
            result matches Err(BrokerError::StorageError(error)) ==> final(self).last_storage_failure()
                == Some(error),
    {
        let message_id = fresh_identifier();
        let now = unix_seconds_now();
        self.publish_with(key, topic, payload, message_id, now)
    }

    /// Subscribes `consumer_id` to `topic`, creating the topic if needed.
    pub fn subscribe(&mut self, consumer_id: &str, topic: &str) -> (reply: Reply)
        requires
            old(self).wf(),
        ensures
            final(self).wf(),
            final(self).received_hooks() == old(self).received_hooks(),
            final(self).executed_hooks() == old(self).executed_hooks(),
            reply == Reply::Subscribed,
            final(self)@ == (BrokerView {
                topics: subscribed(old(self)@.topics, consumer_id@, topic@),
                ..old(self)@
            }),
    {
        self.topics.subscribe(consumer_id, topic);
        Reply::Subscribed
    }

    /// Attaches `consumer_id` to the delivery channel: it is delivered what
    /// is published from now on.
    pub fn consume(&mut self, consumer_id: &str) -> (reply: Reply)
        requires
            old(self).wf(),
        ensures
            final(self).wf(),
            final(self).received_hooks() == old(self).received_hooks(),
            final(self).executed_hooks() == old(self).executed_hooks(),
            reply == Reply::Consuming,
            final(self)@ == (BrokerView {
                channel: old(self)@.channel.attach(consumer_id@),
                ..old(self)@
            }),
    {
        self.channel.attach(consumer_id);
        Reply::Consuming
    }

    /// Moves the offset counter up to the length of the log, so that a
    /// broker started on a storage engine that already holds messages goes
    /// on behind them. The counter never moves back. Returns the offset
    /// the next published message gets.
    pub fn resume_offsets(&mut self) -> (result: Result<u64, BrokerError>)
        requires
            old(self).wf(),
        ensures
            final(self).wf(),
            final(self).received_hooks() == old(self).received_hooks(),
            final(self).executed_hooks() == old(self).executed_hooks(),
            match result {
                Ok(next) => {
                    &&& old(self)@.storage.log.len() <= i64::MAX
                    &&& next == final(self)@.next_offset
                    &&& final(self)@ == (BrokerView {
                        next_offset: if old(self)@.next_offset < old(self)@.storage.log.len() {
                            old(self)@.storage.log.len()
                        } else {
                            old(self)@.next_offset
                        },
                        ..old(self)@
                    })
                },
                Err(BrokerError::InternalError(detail)) => {
                    &&& old(self)@.storage.log.len() > i64::MAX
                    &&& detail@ == "Offset counter exhausted"@
                    &&& final(self)@ == old(self)@
                },
                Err(e) => !S::reliable() && e is StorageError && final(self)@ == old(self)@,
            },
    {
        let latest = match storage_outcome(self.storage.latest_offset()) {
            Ok(latest) => latest,
            Err(e) => {
                return Err(e);
            },
        };
        if latest > i64::MAX as u64 {
            return Err(BrokerError::InternalError(String::from_str("Offset counter exhausted")));
        }
        if self.message_counter < latest {
            self.message_counter = latest;
        }
        Ok(self.message_counter)
    }

    /// Whether `consumer_id` is attached to the delivery channel.
    pub fn is_consuming(&self, consumer_id: &str) -> (attached: bool)
        requires
            self.wf(),
        ensures
            attached == self@.channel.cursors.dom().contains(consumer_id@),
    {
        self.channel.is_attached(consumer_id)
    }

    /// Takes a snapshot of the partition's log. Nothing but the storage
    /// engine changes, and the log itself stays as it is.
    pub fn snapshot(&mut self) -> (result: Result<(), BrokerError>)
        requires
            old(self).wf(),
        ensures
            final(self).wf(),
            final(self).received_hooks() == old(self).received_hooks(),
            final(self).executed_hooks() == old(self).executed_hooks(),
            final(self)@ == (BrokerView { storage: final(self)@.storage, ..old(self)@ }),
            match result {
                Ok(()) => final(self)@.storage == old(self)@.storage.take_snapshot(),
                Err(e) => !S::reliable() && e is StorageError,
            },
            result matches Err(BrokerError::StorageError(error)) ==> final(self).last_storage_failure()
                == Some(error),
    {
        storage_outcome(self.storage.snapshot())
    }

    /// Rebuilds the partition's log from the last snapshot and the
    /// write-ahead log. Nothing but the storage engine changes.
    pub fn recover(&mut self) -> (result: Result<(), BrokerError>)
        requires
            old(self).wf(),
        ensures
            final(self).wf(),
            final(self).received_hooks() == old(self).received_hooks(),
            final(self).executed_hooks() == old(self).executed_hooks(),
            final(self)@ == (BrokerView { storage: final(self)@.storage, ..old(self)@ }),
            match result {
                Ok(()) => final(self)@.storage == old(self)@.storage.recover(),
                Err(e) => !S::reliable() && e is StorageError,
            },
            result matches Err(BrokerError::StorageError(error)) ==> final(self).last_storage_failure()
                == Some(error),
    {
        storage_outcome(self.storage.recover())
    }

    /// Takes the next message for `consumer_id` off the delivery channel:
    /// the oldest waiting message of a topic the consumer is subscribed to.
    /// `None` when nothing is waiting or the consumer is not attached.
    pub fn next_delivery(&mut self, consumer_id: &str) -> (delivered: Option<ConsumeResponse>)
        requires
            old(self).wf(),
        ensures
            final(self).wf(),
            final(self).received_hooks() == old(self).received_hooks(),
            final(self).executed_hooks() == old(self).executed_hooks(),
            final(self)@ == (BrokerView {
                channel: deliver(old(self)@.channel, old(self)@.topics, consumer_id@).0,
                ..old(self)@
            }),
            match delivered {
                Some(message) => deliver(old(self)@.channel, old(self)@.topics, consumer_id@).1
                    == Some(message@),
                None => deliver(old(self)@.channel, old(self)@.topics, consumer_id@).1 is None,
            },
    {
        loop
            invariant
                self.wf(),
                self.received_hooks() == old(self).received_hooks(),
                self.executed_hooks() == old(self).executed_hooks(),
                self@ == (BrokerView { channel: self@.channel, ..old(self)@ }),
                deliver(self@.channel, self@.topics, consumer_id@) == deliver(
                    old(self)@.channel,
                    old(self)@.topics,
                    consumer_id@,
                ),
            decreases self@.channel.pending(consumer_id@),
        {
            let ghost before = self@.channel;
            match self.channel.poll(consumer_id) {
                None => {
                    return None;
                },
                Some(message) => {
                    if self.topics.is_subscribed(consumer_id, message.topic.as_str()) {
                        return Some(message);
                    }
                    proof {
                        crate::channel::lemma_poll_advances(before, consumer_id@);
                    }
                },
            }
        }
    }

    /// Updates the offset of `consumer_id` on `topic`.
    pub fn update_offset(&mut self, consumer_id: &str, topic: &str, offset: i64) -> (result: Result<
        Reply,
        BrokerError,
    >)
        requires
            old(self).wf(),
        ensures
            final(self).wf(),
            final(self).received_hooks() == old(self).received_hooks(),
            final(self).executed_hooks() == old(self).executed_hooks(),
            update_offset_outcome(old(self)@, consumer_id@, topic@, offset, final(self)@, result),
    {
        if offset < 0 {
            return Err(BrokerError::ValidationFailed(String::from_str("Offset cannot be negative")));
        }
        if !self.topics.contains(topic) {
            return Err(BrokerError::ValidationFailed(String::from_str("Topic not found")));
        }
        self.consumer_offsets.set(consumer_id, topic, offset);
        Ok(Reply::OffsetUpdated { offset })
    }

    /// The metrics of the partition at time `now`. Changes nothing.
    pub fn metrics_at(&self, now: i64) -> (result: Result<Metrics, BrokerError>)
        requires
            self.wf(),
        ensures
            metrics_outcome(self@, now, result, S::reliable()),
    {
        let latest = match storage_outcome(self.storage.latest_offset()) {
            Ok(latest) => latest,
            Err(e) => {
                return Err(e);
            },
        };
        let messages = match storage_outcome(self.storage.get_range(0, latest)) {
            Ok(messages) => messages,
            Err(e) => {
                return Err(e);
            },
        };
        proof {
            crate::storage_engine::lemma_range_clamps(self.storage.state(), latest as int, 0);
        }
        let ghost log = self.storage.state().log;
        assert(views(messages@) == log);
        let mut total: u64 = 0;
        let mut i: usize = 0;
        while i < messages.len()
            invariant
                i <= messages@.len(),
                views(messages@) == log,
                total == (if payload_total(log.subrange(0, i as int)) > u64::MAX {
                    u64::MAX as int
                } else {
                    payload_total(log.subrange(0, i as int)) as int
                }),
            decreases messages@.len() - i,
        {
            let size = messages[i].payload.len() as u64;
            proof {
                assert(log.subrange(0, i as int + 1).drop_last() =~= log.subrange(0, i as int));
                assert(log.subrange(0, i as int + 1).last() == messages@[i as int]@);
            }
            total = if size > u64::MAX - total {
                u64::MAX
            } else {
                total + size
            };
            i = i + 1;
        }
        assert(log.subrange(0, i as int) =~= log);
        let oldest_message_age = if messages.len() == 0 {
            0
        } else {
            let created_at = messages[0].created_at;
            assert(messages@[0]@ == log[0]);
            if now > created_at {
                (now as i128 - created_at as i128) as u64
            } else {
                0
            }
        };
        Ok(Metrics { total_messages: latest, total_bytes: total, oldest_message_age })
    }

    /// The metrics of the partition at the current time. Changes nothing.
    pub fn get_metrics(&self) -> (result: Result<Metrics, BrokerError>)
        requires
            self.wf(),
        ensures
            exists|now: i64| now >= 0 && #[trigger] metrics_outcome(self@, now, result, S::reliable()),
    {
        let now = unix_seconds_now();
        self.metrics_at(now)
    }

    fn remove_identity(ids: &mut Vec<String>, id: &String)
        requires
            ids_distinct(old(ids)@),
        ensures
            ids_distinct(final(ids)@),
            id_set(final(ids)@) == id_set(old(ids)@).remove(id@),
    {
        match position_of(ids, id) {
            Some(i) => {
                let _ = ids.swap_remove(i);
                proof {
                    let last = old(ids)@.len() - 1;
                    assert forall|c: Seq<char>| id_set(ids@).contains(c) <==> id_set(old(ids)@).remove(
                        id@,
                    ).contains(c) by {
                        if id_set(ids@).contains(c) {
                            let j = choose|j: int| 0 <= j < ids@.len() && #[trigger] ids@[j]@ == c;
                            if j == i {
                                assert(old(ids)@[last]@ == c);
                            } else {
                                assert(old(ids)@[j]@ == c);
                            }
                        }
                        if id_set(old(ids)@).remove(id@).contains(c) {
                            let j = choose|j: int|
                                0 <= j < old(ids)@.len() && #[trigger] old(ids)@[j]@ == c;
                            if j == last {
                                assert(ids@[i as int]@ == c);
                            } else {
                                assert(ids@[j]@ == c);
                            }
                        }
                    }
                    assert(id_set(ids@) =~= id_set(old(ids)@).remove(id@));
                }
            },
            None => {
                assert(id_set(ids@) =~= id_set(old(ids)@).remove(id@));
            },
        }
    }

    fn add_identity(ids: &mut Vec<String>, id: String)
        requires
            ids_distinct(old(ids)@),
            !id_set(old(ids)@).contains(id@),
        ensures
            ids_distinct(final(ids)@),
            id_set(final(ids)@) == id_set(old(ids)@).insert(id@),
    {
        proof {
            lemma_push_fresh_id(ids@, id);
        }
        ids.push(id);
    }

    /// Registers the identity `client_id` in the role that `client_type`
    /// names, for `session`.
    pub fn register(&mut self, session: &mut Session, client_id: &str, client_type: &str) -> (result:
        Result<Reply, BrokerError>)
        requires
            old(self).wf(),
        ensures
            final(self).wf(),
            final(self).received_hooks() == old(self).received_hooks(),
            final(self).executed_hooks() == old(self).executed_hooks(),
            register_outcome(
                old(self)@,
                *old(session),
                client_id@,
                client_type@,
                final(self)@,
                *final(session),
                result,
            ),
    {
        let wanted = String::from_str(client_id);
        let parsed = parse_role(client_type);
        match session {
            Session::Closed => Err(
                BrokerError::RegistrationFailed(String::from_str("Session is closed")),
            ),
            Session::Registered { client_id: held, role } => {
                let same = *held == wanted && match parsed {
                    Some(r) => r == *role,
                    None => false,
                };
                if same {
                    Ok(Reply::Registered)
                } else {
                    Err(
                        BrokerError::RegistrationFailed(
                            String::from_str("Session is already registered"),
                        ),
                    )
                }
            },
            Session::Unregistered => {
                let role = match parsed {
                    Some(role) => role,
                    None => {
                        return Err(
                            BrokerError::ValidationFailed(String::from_str("Unknown client type")),
                        );
                    },
                };
                let taken = match role {
                    ClientRole::Producer => position_of(&self.producers, &wanted).is_some(),
                    ClientRole::Consumer => position_of(&self.consumers, &wanted).is_some(),
                };
                if taken {
                    let mut detail = match role {
                        ClientRole::Producer => String::from_str("Producer '"),
                        ClientRole::Consumer => String::from_str("Consumer '"),
                    };
                    detail.append(client_id);
                    detail.append("' is already registered");
                    return Err(BrokerError::RegistrationFailed(detail));
                }
                let held = wanted.clone();
                match role {
                    ClientRole::Producer => Self::add_identity(&mut self.producers, wanted),
                    ClientRole::Consumer => Self::add_identity(&mut self.consumers, wanted),
                }
                *session = Session::Registered { client_id: held, role };
                Ok(Reply::Registered)
            },
        }
    }

    /// Closes `session`: its identity is free again, and if it was a
    /// consumer it no longer reads from the delivery channel.
    pub fn close(&mut self, session: &mut Session)
        requires
            old(self).wf(),
        ensures
            final(self).wf(),
            final(self).received_hooks() == old(self).received_hooks(),
            final(self).executed_hooks() == old(self).executed_hooks(),
            *final(session) == Session::Closed,
            final(self)@ == (match *old(session) {
                Session::Registered { client_id, role } => without_identity(
                    old(self)@,
                    role,
                    client_id@,
                ),
                _ => old(self)@,
            }),
    {
        match session {
            Session::Registered { client_id, role } => {
                match role {
                    ClientRole::Producer => {
                        Self::remove_identity(&mut self.producers, client_id);
                    },
                    ClientRole::Consumer => {
                        Self::remove_identity(&mut self.consumers, client_id);
                        self.channel.detach(client_id.as_str());
                    },
                }
            },
            _ => {},
        }
        *session = Session::Closed;
    }

    /// Carries out one request of `session`. A publish uses the identifier
    /// `message_id` and the time `now`; the metrics are taken at `now`.
    pub fn process(
        &mut self,
        session: &mut Session,
        message: &BrokerMessage,
        message_id: String,
        now: i64,
    ) -> (result: Result<Reply, BrokerError>)
        requires
            old(self).wf(),
        ensures
            final(self).wf(),
            final(self).received_hooks() == old(self).received_hooks(),
            final(self).executed_hooks() == old(self).executed_hooks(),
            process_outcome(
                old(self)@,
                *old(session),
                *message,
                message_id@,
                now,
                final(self)@,
                *final(session),
                result,
                S::reliable(),
            ),
            *message is Publish ==> (result matches Err(BrokerError::StorageError(error))
                ==> final(self).last_storage_failure() == Some(error)),
    {
        if let BrokerMessage::Register { client_id, client_type } = message {
            return self.register(session, client_id.as_str(), client_type.as_str());
        }
        match session {
            Session::Closed => {
                return Err(BrokerError::RegistrationFailed(String::from_str("Session is closed")));
            },
            Session::Unregistered => {
                return Err(
                    BrokerError::RegistrationFailed(String::from_str("Session is not registered")),
                );
            },
            Session::Registered { .. } => {},
        }
        match message {
            BrokerMessage::Publish { key, topic, payload } => self.publish_with(
                key.clone(),
                topic.clone(),
                payload.clone(),
                message_id,
                now,
            ),
            BrokerMessage::Subscribe { consumer_id, topic } => Ok(
                self.subscribe(consumer_id.as_str(), topic.as_str()),
            ),
            BrokerMessage::Consume { consumer_id } => Ok(self.consume(consumer_id.as_str())),
            BrokerMessage::UpdateOffset { consumer_id, topic, offset } => self.update_offset(
                consumer_id.as_str(),
                topic.as_str(),
                *offset,
            ),
            BrokerMessage::GetMetrics => match self.metrics_at(now) {
                Ok(metrics) => Ok(Reply::Metrics(metrics)),
                Err(e) => Err(e),
            },
            BrokerMessage::Register { .. } => Ok(Reply::Registered),
        }
    }
}

impl<S, H> Broker<S, H> where
    S: StorageEngine<Msg = StoredMessage>,
    H: OnRequestReceived<Request = BrokerMessage, HookResult = BrokerVerdict> + OnRequestExecuted<
        Request = BrokerMessage,
        Response = Reply,
        HookResult = BrokerVerdict,
    >,
 {
    /// Adds a request-received hook behind those already registered.
    pub fn add_on_request_received_hook(&mut self, hook: H)
        requires
            old(self).wf(),
        ensures
            final(self).wf(),
            final(self)@ == old(self)@,
            final(self).received_hooks() == old(self).received_hooks().push(hook),
            final(self).executed_hooks() == old(self).executed_hooks(),
    {
        self.on_request_received_hooks.push(hook);
    }

    /// Adds a request-executed hook behind those already registered.
    pub fn add_on_request_executed_hook(&mut self, hook: H)
        requires
            old(self).wf(),
        ensures
            final(self).wf(),
            final(self)@ == old(self)@,
            final(self).received_hooks() == old(self).received_hooks(),
            final(self).executed_hooks() == old(self).executed_hooks().push(hook),
    {
        self.on_request_executed_hooks.push(hook);
    }

    /// Carries on with a request after the request-received hooks: a
    /// request they aborted changes nothing and returns their error; a
    /// request they let through is processed, a publish with a fresh
    /// identifier and the current time, and its reply goes through the
    /// request-executed hooks.
    pub fn handle_admitted(
        &mut self,
        session: &mut Session,
        admitted: Result<BrokerMessage, BrokerError>,
    ) -> (result: Result<Reply, BrokerError>)
        requires
            old(self).wf(),
        ensures
            final(self).wf(),
            final(self).received_hooks() == old(self).received_hooks(),
            final(self).executed_hooks() == old(self).executed_hooks(),
            match admitted {
                Err(e) => {
                    &&& final(self)@ == old(self)@
                    &&& *final(session) == *old(session)
                    &&& result == Err::<Reply, BrokerError>(e)
                },
                Ok(request) => handled(
                    old(self).executed_hooks(),
                    old(self)@,
                    *old(session),
                    request,
                    final(self)@,
                    *final(session),
                    result,
                    S::reliable(),
                    final(self).last_storage_failure(),
                ),
            },
    {
        let request = match admitted {
            Ok(request) => request,
            Err(e) => {
                return Err(e);
            },
        };
        let message_id = match &request {
            BrokerMessage::Publish { .. } => fresh_identifier(),
            _ => String::new(),
        };
        let now = match &request {
            BrokerMessage::Publish { .. } | BrokerMessage::GetMetrics => unix_seconds_now(),
            _ => 0,
        };
        let processed = self.process(session, &request, message_id, now);
        match processed {
            Err(e) => {
                proof {
                    assert(handled_by(
                        old(self).executed_hooks(),
                        old(self)@,
                        *old(session),
                        request,
                        message_id@,
                        now,
                        processed,
                        Seq::empty(),
                        self@,
                        *session,
                        Err(e),
                        S::reliable(),
                        self.last_storage_failure(),
                    ));
                }
                Err(e)
            },
            Ok(reply) => {
                let result = run_executed_hooks(&self.on_request_executed_hooks, &request, reply);
                proof {
                    let verdicts = choose|verdicts: Seq<BrokerVerdict>| #[trigger]
                        ran_executed_hooks(
                            self.on_request_executed_hooks@,
                            request,
                            reply,
                            verdicts,
                        ) && outcome_of(result) == fold_response(verdicts, reply);
                    assert(handled_by(
                        old(self).executed_hooks(),
                        old(self)@,
                        *old(session),
                        request,
                        message_id@,
                        now,
                        processed,
                        verdicts,
                        self@,
                        *session,
                        result,
                        S::reliable(),
                        self.last_storage_failure(),
                    ));
                }
                result
            },
        }
    }

    /// Handles one request of `session`: runs the request-received hooks,
    /// processes the request they let through, and runs the
    /// request-executed hooks on its reply.
    pub fn handle(&mut self, session: &mut Session, message: BrokerMessage) -> (result: Result<
        Reply,
        BrokerError,
    >)
        requires
            old(self).wf(),
        ensures
            final(self).wf(),
            final(self).received_hooks() == old(self).received_hooks(),
            final(self).executed_hooks() == old(self).executed_hooks(),
            exists|received: Seq<BrokerVerdict>| #[trigger]
                handle_outcome(
                    old(self).received_hooks(),
                    old(self).executed_hooks(),
                    received,
                    old(self)@,
                    *old(session),
                    message,
                    final(self)@,
                    *final(session),
                    result,
                    S::reliable(),
                    final(self).last_storage_failure(),
                ),
    {
        let admitted = run_request_hooks(&self.on_request_received_hooks, message);
        let ghost received = choose|verdicts: Seq<BrokerVerdict>| #[trigger]
            ran_request_hooks(self.on_request_received_hooks@, message, verdicts) && outcome_of(
                admitted,
            ) == fold_request(verdicts, message);
        let result = self.handle_admitted(session, admitted);
        proof {
            assert(handle_outcome(
                old(self).received_hooks(),
                old(self).executed_hooks(),
                received,
                old(self)@,
                *old(session),
                message,
                self@,
                *session,
                result,
                S::reliable(),
                self.last_storage_failure(),
            ));
        }
        result
    }
}

impl<H> Broker<InMemoryStorage<StoredMessage>, H> {
    /// Creates the broker of partition `partition_id` out of
    /// `total_partitions`, with an in-memory storage engine and a delivery
    /// channel of the default capacity.
    pub fn new(partition_id: u32, total_partitions: u32) -> (broker: Self)
        requires
            partition_id < total_partitions,
        ensures
            broker.wf(),
            broker@ == BrokerView::initial(
                partition_id,
                total_partitions,
                BROADCAST_CAPACITY as nat,
            ),
            broker.received_hooks() == Seq::<H>::empty(),
            broker.executed_hooks() == Seq::<H>::empty(),
    {
        Broker::with_storage(
            partition_id,
            total_partitions,
            InMemoryStorage::new(),
            BROADCAST_CAPACITY,
        )
    }
}

} // verus!
