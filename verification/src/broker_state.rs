//! The state of a partition broker as a mathematical value, what each
//! request does to it, and the laws that follow.

use vstd::prelude::*;
use crate::channel::ChannelState;
use crate::errors::broker_error::BrokerError;
use crate::errors::storage_error::StorageError;
use crate::hooks::{BaseHookResult, OnRequestExecuted, OnRequestReceived};
use crate::hooks_integration::{
    fold_request, fold_response, lemma_aborting_verdict_is_last, lemma_stopping_hook_aborts,
    outcome_of, ran_executed_hooks, ran_request_hooks, stopped_text, BrokerHookError,
};
use crate::identity::IDENTIFIER_LENGTH;
use crate::message::StoredMessageView;
use crate::partitioner::partition_of;
use crate::protocol::{
    delivery_of, role_of, BrokerMessage, ClientRole, ConsumeResponseView, Metrics, Reply,
};
use crate::storage_engine::LogState;
use crate::topics::{ensured, subscribed};

verus! {

/// The state of a broker as a mathematical value.
#[verifier::ext_equal]
pub struct BrokerView {
    pub partition_id: u32,
    pub total_partitions: u32,
    /// The subscribers of each topic.
    pub topics: Map<Seq<char>, Set<Seq<char>>>,
    /// The offset of each (consumer, topic).
    pub offsets: Map<(Seq<char>, Seq<char>), i64>,
    pub storage: LogState<StoredMessageView>,
    pub channel: ChannelState<ConsumeResponseView>,
    /// The offset the next published message gets.
    pub next_offset: nat,
    /// The identities of the registered producers.
    pub producers: Set<Seq<char>>,
    /// The identities of the registered consumers.
    pub consumers: Set<Seq<char>>,
}

/// One message to publish, with the identifier and the time it is given.
pub struct Publication {
    pub key: Seq<char>,
    pub topic: Seq<char>,
    pub payload: Seq<u8>,
    pub message_id: Seq<char>,
    pub now: i64,
}

impl BrokerView {
    /// The state of a new broker.
    pub open spec fn initial(partition_id: u32, total_partitions: u32, capacity: nat) -> Self {
        BrokerView {
            partition_id,
            total_partitions,
            topics: Map::empty(),
            offsets: Map::empty(),
            storage: LogState::empty(),
            channel: ChannelState::empty(capacity),
            next_offset: 0,
            producers: Set::empty(),
            consumers: Set::empty(),
        }
    }

    /// Whether this broker's partition owns `key`.
    pub open spec fn owns(self, key: Seq<char>) -> bool {
        partition_of(key, self.total_partitions) == self.partition_id
    }

    /// The record that is stored for a publication at this point.
    pub open spec fn record(self, p: Publication) -> StoredMessageView {
        StoredMessageView {
            message_id: p.message_id,
            topic: p.topic,
            key: p.key,
            payload: p.payload,
            offset: self.next_offset as i64,
            created_at: p.now,
        }
    }

    /// The state after an offset was assigned for a message on `topic`: the
    /// topic exists and the offset is used up, whether or not the message
    /// is then stored.
    pub open spec fn assigned(self, topic: Seq<char>) -> Self {
        BrokerView {
            topics: ensured(self.topics, topic),
            next_offset: self.next_offset + 1,
            ..self
        }
    }

    /// The state after a successful publish: the topic exists, the record
    /// is appended to the log and sent on the delivery channel, and the
    /// offset is used up.
    pub open spec fn published(self, p: Publication) -> Self {
        BrokerView {
            topics: ensured(self.topics, p.topic),
            storage: self.storage.append(self.record(p)),
            channel: self.channel.send(delivery_of(self.record(p))),
            next_offset: self.next_offset + 1,
            ..self
        }
    }

    /// The state after every publication of `items` succeeded, in order.
    pub open spec fn published_all(self, items: Seq<Publication>) -> Self
        decreases items.len(),
    {
        if items.len() == 0 {
            self
        } else {
            self.published_all(items.drop_last()).published(items.last())
        }
    }
}

/// Offsets count up: after a run of successful publishes, the message
/// published as number `k` of the run carries the offset `k` places behind
/// the first, lies at its place in the log behind what was there, and the
/// next offset is behind them all. On a new broker the offsets of the first
/// `n` publishes are therefore exactly 0, 1, .., n - 1, in call order.
pub proof fn lemma_offsets_count_up(s: BrokerView, items: Seq<Publication>)
    ensures
        s.published_all(items).next_offset == s.next_offset + items.len(),
        s.published_all(items).storage.log.len() == s.storage.log.len() + items.len(),
        s.published_all(items).total_partitions == s.total_partitions,
        s.published_all(items).partition_id == s.partition_id,
        forall|k: int|
            0 <= k < items.len() ==> {
                let stored = #[trigger] s.published_all(items).storage.log[s.storage.log.len() + k];
                &&& stored.offset == (s.next_offset + k) as i64
                &&& stored.payload == items[k].payload
                &&& stored.key == items[k].key
                &&& stored.topic == items[k].topic
                &&& stored.message_id == items[k].message_id
            },
        forall|i: int|
            0 <= i < s.storage.log.len() ==> #[trigger] s.published_all(items).storage.log[i]
                == s.storage.log[i],
        s.next_offset + items.len() <= i64::MAX ==> forall|k: int|
            0 <= k < items.len() ==> (#[trigger] s.published_all(items).storage.log[s.storage.log.len()
                + k]).offset as int == s.next_offset + k,
    decreases items.len(),
{
    if items.len() > 0 {
        let before = s.published_all(items.drop_last());
        lemma_offsets_count_up(s, items.drop_last());
        assert forall|k: int| 0 <= k < items.len() implies {
            let stored = #[trigger] s.published_all(items).storage.log[s.storage.log.len() + k];
            &&& stored.offset == (s.next_offset + k) as i64
            &&& stored.payload == items[k].payload
            &&& stored.key == items[k].key
            &&& stored.topic == items[k].topic
            &&& stored.message_id == items[k].message_id
        } by {
            if k < items.len() - 1 {
                assert(before.storage.log[s.storage.log.len() + k] == s.published_all(
                    items,
                ).storage.log[s.storage.log.len() + k]);
                assert(items.drop_last()[k] == items[k]);
            }
        }
    }
}

/// A message lies only in the log of the partition that owns its key: if
/// every key in the log is this partition's, it is so after any run of
/// successful publishes, each of which was of a key that the partition owns.
pub proof fn lemma_log_holds_owned_keys_only(s: BrokerView, items: Seq<Publication>)
    requires
        forall|i: int| 0 <= i < s.storage.log.len() ==> s.owns(#[trigger] s.storage.log[i].key),
        forall|k: int| 0 <= k < items.len() ==> s.owns(#[trigger] items[k].key),
    ensures
        forall|i: int|
            0 <= i < s.published_all(items).storage.log.len() ==> s.owns(
                #[trigger] s.published_all(items).storage.log[i].key,
            ),
{
    lemma_offsets_count_up(s, items);
    assert forall|i: int| 0 <= i < s.published_all(items).storage.log.len() implies s.owns(
        #[trigger] s.published_all(items).storage.log[i].key,
    ) by {
        if i < s.storage.log.len() {
            assert(s.published_all(items).storage.log[i] == s.storage.log[i]);
        } else {
            let k = i - s.storage.log.len();
            assert(s.published_all(items).storage.log[s.storage.log.len() + k].key == items[k].key);
        }
    }
}

/// Messages are broadcast in the order in which they were appended: after
/// a run of successful publishes, what was sent on the delivery channel
/// during the run is the delivery of what was appended to the log during
/// the run, message for message.
pub proof fn lemma_broadcast_order_is_append_order(s: BrokerView, items: Seq<Publication>)
    ensures
        s.published_all(items).channel.history.len() == s.channel.history.len() + items.len(),
        s.published_all(items).channel.cursors == s.channel.cursors,
        s.published_all(items).channel.capacity == s.channel.capacity,
        forall|k: int|
            0 <= k < items.len() ==> #[trigger] s.published_all(items).channel.history[s.channel.history.len()
                + k] == delivery_of(s.published_all(items).storage.log[s.storage.log.len() + k]),
        forall|i: int|
            0 <= i < s.channel.history.len() ==> #[trigger] s.published_all(items).channel.history[i]
                == s.channel.history[i],
    decreases items.len(),
{
    if items.len() > 0 {
        let before = s.published_all(items.drop_last());
        lemma_broadcast_order_is_append_order(s, items.drop_last());
        lemma_offsets_count_up(s, items.drop_last());
        assert forall|k: int| 0 <= k < items.len() implies #[trigger] s.published_all(
            items,
        ).channel.history[s.channel.history.len() + k] == delivery_of(
            s.published_all(items).storage.log[s.storage.log.len() + k],
        ) by {
            if k < items.len() - 1 {
                assert(before.channel.history[s.channel.history.len() + k] == s.published_all(
                    items,
                ).channel.history[s.channel.history.len() + k]);
                assert(before.storage.log[s.storage.log.len() + k] == s.published_all(
                    items,
                ).storage.log[s.storage.log.len() + k]);
            }
        }
    }
}

/// The sum of the payload sizes of the messages of `log`.
pub open spec fn payload_total(log: Seq<StoredMessageView>) -> nat
    decreases log.len(),
{
    if log.len() == 0 {
        0
    } else {
        payload_total(log.drop_last()) + log.last().payload.len()
    }
}

/// The age at `now` of a message created at `created_at`; 0 for a message
/// from the future.
pub open spec fn age_at(now: i64, created_at: i64) -> u64 {
    if now > created_at {
        (now - created_at) as u64
    } else {
        0
    }
}

/// The metrics of a log at time `now`: the number of messages, the sum of
/// their payload sizes (capped at the largest `u64`), and the age of the
/// message at offset 0.
pub open spec fn metrics_of(log: Seq<StoredMessageView>, now: i64) -> Metrics {
    Metrics {
        total_messages: log.len() as u64,
        total_bytes: if payload_total(log) > u64::MAX {
            u64::MAX
        } else {
            payload_total(log) as u64
        },
        oldest_message_age: if log.len() == 0 {
            0
        } else {
            age_at(now, log[0].created_at)
        },
    }
}

/// Whether `consumer` is subscribed to `topic`.
pub open spec fn wants(
    topics: Map<Seq<char>, Set<Seq<char>>>,
    consumer: Seq<char>,
    topic: Seq<char>,
) -> bool {
    topics.dom().contains(topic) && topics[topic].contains(consumer)
}

/// What the next delivery to `consumer` is, and the channel after it: the
/// oldest waiting message of a topic the consumer is subscribed to. The
/// waiting messages of other topics before it are passed over for good.
pub open spec fn deliver(
    channel: ChannelState<ConsumeResponseView>,
    topics: Map<Seq<char>, Set<Seq<char>>>,
    consumer: Seq<char>,
) -> (ChannelState<ConsumeResponseView>, Option<ConsumeResponseView>)
    decreases channel.pending(consumer),
{
    match channel.poll_result(consumer) {
        None => (channel, None),
        Some(message) => if wants(topics, consumer, message.topic) {
            (channel.after_poll(consumer), Some(message))
        } else {
            deliver(channel.after_poll(consumer), topics, consumer)
        },
    }
}

/// What a publish does, and what it returns.
///
/// A key that another partition owns is rejected with the owner's number,
/// and nothing changes. Otherwise an offset is assigned; the publish then
/// succeeds with that offset and the state of [`BrokerView::published`],
/// unless the storage engine fails, which a reliable engine never does.
pub open spec fn publish_outcome(
    before: BrokerView,
    p: Publication,
    after: BrokerView,
    result: Result<Reply, BrokerError>,
    reliable: bool,
) -> bool {
    if !before.owns(p.key) {
        &&& after == before
        &&& result matches Err(BrokerError::OwnershipError { owner, partition })
        &&& owner == partition_of(p.key, before.total_partitions)
        &&& partition == before.partition_id
    } else if before.next_offset >= i64::MAX {
        &&& after == before
        &&& result matches Err(BrokerError::InternalError(detail))
        &&& detail@ == "Offset counter exhausted"@
    } else {
        match result {
            Ok(reply) => {
                &&& after == before.published(p)
                &&& reply == (Reply::Published {
                    partition: before.partition_id,
                    offset: before.next_offset as i64,
                })
            },
            Err(e) => {
                &&& !reliable
                &&& e is StorageError
                &&& after == (BrokerView { storage: after.storage, ..before.assigned(p.topic) })
            },
        }
    }
}

/// A publish of a key that another partition owns is rejected with the
/// number of that partition, and leaves the broker as it was: the log is
/// no longer than before and no offset is used up.
pub proof fn lemma_foreign_key_is_rejected(
    before: BrokerView,
    p: Publication,
    after: BrokerView,
    result: Result<Reply, BrokerError>,
    reliable: bool,
)
    requires
        !before.owns(p.key),
        publish_outcome(before, p, after, result, reliable),
    ensures
        result matches Err(BrokerError::OwnershipError { owner, partition }) && owner
            == partition_of(p.key, before.total_partitions) && owner != before.partition_id
            && partition == before.partition_id,
        after == before,
        after.storage.log.len() == before.storage.log.len(),
        after.next_offset == before.next_offset,
{
}

/// What an offset update does, and what it returns: a negative offset and
/// an unknown topic are rejected and change nothing; otherwise the offset
/// is recorded, whatever was recorded before.
pub open spec fn update_offset_outcome(
    before: BrokerView,
    consumer: Seq<char>,
    topic: Seq<char>,
    offset: i64,
    after: BrokerView,
    result: Result<Reply, BrokerError>,
) -> bool {
    if offset < 0 {
        &&& after == before
        &&& result matches Err(BrokerError::ValidationFailed(detail))
        &&& detail@ == "Offset cannot be negative"@
    } else if !before.topics.dom().contains(topic) {
        &&& after == before
        &&& result matches Err(BrokerError::ValidationFailed(detail))
        &&& detail@ == "Topic not found"@
    } else {
        &&& after == (BrokerView { offsets: before.offsets.insert((consumer, topic), offset), ..before })
        &&& result == Ok::<Reply, BrokerError>(Reply::OffsetUpdated { offset })
    }
}

/// Offsets never become negative through an update: if no recorded offset
/// is negative, none is after an update, whatever it was given.
pub proof fn lemma_update_keeps_offsets_non_negative(
    before: BrokerView,
    consumer: Seq<char>,
    topic: Seq<char>,
    offset: i64,
    after: BrokerView,
    result: Result<Reply, BrokerError>,
)
    requires
        forall|key: (Seq<char>, Seq<char>)|
            before.offsets.dom().contains(key) ==> #[trigger] before.offsets[key] >= 0,
        update_offset_outcome(before, consumer, topic, offset, after, result),
    ensures
        forall|key: (Seq<char>, Seq<char>)|
            after.offsets.dom().contains(key) ==> #[trigger] after.offsets[key] >= 0,
        offset < 0 ==> result is Err && after == before,
        !before.topics.dom().contains(topic) ==> result is Err && after == before,
{
}

/// What reading the metrics returns: the metrics of the log, unless the
/// storage engine fails, which a reliable engine never does.
pub open spec fn metrics_outcome(
    state: BrokerView,
    now: i64,
    result: Result<Metrics, BrokerError>,
    reliable: bool,
) -> bool {
    match result {
        Ok(metrics) => metrics == metrics_of(state.storage.log, now),
        Err(e) => !reliable && e is StorageError,
    }
}

/// The state of one client connection. A session registers an identity and
/// a role before it does anything else, and is closed at the end.
#[derive(Debug)]
pub enum Session {
    Unregistered,
    Registered { client_id: String, role: ClientRole },
    Closed,
}

/// The registered identities of a role.
pub open spec fn identities(state: BrokerView, role: ClientRole) -> Set<Seq<char>> {
    match role {
        ClientRole::Producer => state.producers,
        ClientRole::Consumer => state.consumers,
    }
}

/// The state after `client_id` registered in `role`.
pub open spec fn with_identity(state: BrokerView, role: ClientRole, client_id: Seq<char>) -> BrokerView {
    match role {
        ClientRole::Producer => BrokerView { producers: state.producers.insert(client_id), ..state },
        ClientRole::Consumer => BrokerView { consumers: state.consumers.insert(client_id), ..state },
    }
}

/// The state after the session of `client_id` in `role` closed: the identity
/// is free again, and a consumer no longer reads from the delivery channel.
pub open spec fn without_identity(state: BrokerView, role: ClientRole, client_id: Seq<char>) -> BrokerView {
    match role {
        ClientRole::Producer => BrokerView { producers: state.producers.remove(client_id), ..state },
        ClientRole::Consumer => BrokerView {
            consumers: state.consumers.remove(client_id),
            channel: state.channel.detach(client_id),
            ..state
        },
    }
}

/// The text that rejects an identity that is registered already.
pub open spec fn already_registered_text(role: ClientRole, client_id: Seq<char>) -> Seq<char> {
    (match role {
        ClientRole::Producer => "Producer '"@,
        ClientRole::Consumer => "Consumer '"@,
    }) + client_id + "' is already registered"@
}

/// Whether `result` is a failed registration with the detail `detail`.
pub open spec fn registration_failed(result: Result<Reply, BrokerError>, detail: Seq<char>) -> bool {
    result matches Err(BrokerError::RegistrationFailed(d)) && d@ == detail
}

/// What a registration does, and what it returns.
///
/// A session registers once. Registering the same identity and role again
/// on the same session changes nothing and succeeds; an identity that
/// another session holds in the same role is rejected.
pub open spec fn register_outcome(
    before: BrokerView,
    session_before: Session,
    client_id: Seq<char>,
    client_type: Seq<char>,
    after: BrokerView,
    session_after: Session,
    result: Result<Reply, BrokerError>,
) -> bool {
    match session_before {
        Session::Closed => {
            &&& after == before
            &&& session_after == session_before
            &&& registration_failed(result, "Session is closed"@)
        },
        Session::Registered { client_id: held, role } => {
            &&& after == before
            &&& session_after == session_before
            &&& if held@ == client_id && role_of(client_type) == Some(role) {
                result == Ok::<Reply, BrokerError>(Reply::Registered)
            } else {
                registration_failed(result, "Session is already registered"@)
            }
        },
        Session::Unregistered => match role_of(client_type) {
            None => {
                &&& after == before
                &&& session_after == session_before
                &&& result matches Err(BrokerError::ValidationFailed(d))
                &&& d@ == "Unknown client type"@
            },
            Some(role) => if identities(before, role).contains(client_id) {
                &&& after == before
                &&& session_after == session_before
                &&& registration_failed(result, already_registered_text(role, client_id))
            } else {
                &&& after == with_identity(before, role, client_id)
                &&& session_after matches Session::Registered { client_id: held, role: r }
                &&& held@ == client_id
                &&& r == role
                &&& result == Ok::<Reply, BrokerError>(Reply::Registered)
            },
        },
    }
}

/// What one request does to the broker and the session, and what it
/// returns, given the identifier and the time that a publish would use.
///
/// A registration is handled by [`register_outcome`]. Every other request
/// is rejected, with nothing changed, unless the session is registered.
pub open spec fn process_outcome(
    before: BrokerView,
    session_before: Session,
    message: BrokerMessage,
    message_id: Seq<char>,
    now: i64,
    after: BrokerView,
    session_after: Session,
    result: Result<Reply, BrokerError>,
    reliable: bool,
) -> bool {
    match message {
        BrokerMessage::Register { client_id, client_type } => register_outcome(
            before,
            session_before,
            client_id@,
            client_type@,
            after,
            session_after,
            result,
        ),
        _ => {
            &&& session_after == session_before
            &&& match session_before {
                Session::Closed => after == before && registration_failed(result, "Session is closed"@),
                Session::Unregistered => after == before && registration_failed(
                    result,
                    "Session is not registered"@,
                ),
                Session::Registered { .. } => match message {
                    BrokerMessage::Publish { key, topic, payload } => publish_outcome(
                        before,
                        Publication { key: key@, topic: topic@, payload: payload@, message_id, now },
                        after,
                        result,
                        reliable,
                    ),
                    BrokerMessage::Subscribe { consumer_id, topic } => {
                        &&& after == (BrokerView {
                            topics: subscribed(before.topics, consumer_id@, topic@),
                            ..before
                        })
                        &&& result == Ok::<Reply, BrokerError>(Reply::Subscribed)
                    },
                    BrokerMessage::Consume { consumer_id } => {
                        &&& after == (BrokerView { channel: before.channel.attach(consumer_id@), ..before })
                        &&& result == Ok::<Reply, BrokerError>(Reply::Consuming)
                    },
                    BrokerMessage::UpdateOffset { consumer_id, topic, offset } => update_offset_outcome(
                        before,
                        consumer_id@,
                        topic@,
                        offset,
                        after,
                        result,
                    ),
                    BrokerMessage::GetMetrics => {
                        &&& after == before
                        &&& match result {
                            Ok(reply) => reply == Reply::Metrics(metrics_of(before.storage.log, now)),
                            Err(e) => !reliable && e is StorageError,
                        }
                    },
                    BrokerMessage::Register { .. } => true,
                },
            }
        },
    }
}

/// The verdict of a hook of the partition broker.
pub type BrokerVerdict = BaseHookResult<BrokerMessage, Reply, BrokerHookError>;

/// What the caller gets for a processed request, given the verdicts that
/// the request-executed hooks returned: an error of the processing is
/// passed on as it is and no hook is asked; a reply goes through the
/// hooks, which may replace it or abort.
pub open spec fn answered<H>(
    executed_hooks: Seq<H>,
    request: BrokerMessage,
    processed: Result<Reply, BrokerError>,
    verdicts: Seq<BrokerVerdict>,
    result: Result<Reply, BrokerError>,
) -> bool where
    H: OnRequestExecuted<Request = BrokerMessage, Response = Reply, HookResult = BrokerVerdict>,
 {
    match processed {
        Err(_) => result == processed,
        Ok(reply) => {
            &&& ran_executed_hooks(executed_hooks, request, reply, verdicts)
            &&& result matches Err(e) ==> e is HookError
            &&& outcome_of(result) == fold_response(verdicts, reply)
        },
    }
}

/// An admitted request was processed with the identifier `message_id` at
/// time `now`, which gave `processed`, and the request-executed hooks
/// returned `verdicts`. The identifier of a publish is a fresh one, and
/// the storage error of a failed publish is the one with which the
/// engine failed, `failure_after`.
pub open spec fn handled_by<H>(
    executed_hooks: Seq<H>,
    before: BrokerView,
    session_before: Session,
    request: BrokerMessage,
    message_id: Seq<char>,
    now: i64,
    processed: Result<Reply, BrokerError>,
    verdicts: Seq<BrokerVerdict>,
    after: BrokerView,
    session_after: Session,
    result: Result<Reply, BrokerError>,
    reliable: bool,
    failure_after: Option<StorageError>,
) -> bool where
    H: OnRequestExecuted<Request = BrokerMessage, Response = Reply, HookResult = BrokerVerdict>,
 {
    &&& request is Publish ==> message_id.len() == IDENTIFIER_LENGTH
    &&& request is Publish ==> (processed matches Err(BrokerError::StorageError(error))
        ==> failure_after == Some(error))
    &&& now >= 0
    &&& process_outcome(
        before,
        session_before,
        request,
        message_id,
        now,
        after,
        session_after,
        processed,
        reliable,
    )
    &&& answered(executed_hooks, request, processed, verdicts, result)
}

/// An admitted request was processed, for some fresh identifier, some
/// reading of the clock and the verdicts that the request-executed hooks
/// returned.
pub open spec fn handled<H>(
    executed_hooks: Seq<H>,
    before: BrokerView,
    session_before: Session,
    request: BrokerMessage,
    after: BrokerView,
    session_after: Session,
    result: Result<Reply, BrokerError>,
    reliable: bool,
    failure_after: Option<StorageError>,
) -> bool where
    H: OnRequestExecuted<Request = BrokerMessage, Response = Reply, HookResult = BrokerVerdict>,
 {
    exists|
        message_id: Seq<char>,
        now: i64,
        processed: Result<Reply, BrokerError>,
        verdicts: Seq<BrokerVerdict>,
    | #[trigger]
        handled_by(
            executed_hooks,
            before,
            session_before,
            request,
            message_id,
            now,
            processed,
            verdicts,
            after,
            session_after,
            result,
            reliable,
            failure_after,
        )
}

/// What handling a request does when the request-received hooks returned
/// `received`: if their outcome is an abort, nothing changes, nothing is
/// stored, and the caller gets the hook error; otherwise the request they
/// let through is processed.
pub open spec fn handle_outcome<H>(
    received_hooks: Seq<H>,
    executed_hooks: Seq<H>,
    received: Seq<BrokerVerdict>,
    before: BrokerView,
    session_before: Session,
    message: BrokerMessage,
    after: BrokerView,
    session_after: Session,
    result: Result<Reply, BrokerError>,
    reliable: bool,
    failure_after: Option<StorageError>,
) -> bool where
    H: OnRequestReceived<Request = BrokerMessage, HookResult = BrokerVerdict> + OnRequestExecuted<
        Request = BrokerMessage,
        Response = Reply,
        HookResult = BrokerVerdict,
    >,
 {
    &&& ran_request_hooks(received_hooks, message, received)
    &&& match fold_request(received, message) {
        Err(detail) => {
            &&& after == before
            &&& session_after == session_before
            &&& result matches Err(BrokerError::HookError(d))
            &&& d@ == detail
        },
        Ok(request) => handled(
            executed_hooks,
            before,
            session_before,
            request,
            after,
            session_after,
            result,
            reliable,
            failure_after,
        ),
    }
}

/// A request-received hook that stops the request at hand, behind hooks
/// that let it continue, prevents every change: the broker and the session
/// stay as they were, so nothing is appended to the storage, and the
/// caller receives the hook error of a stopped request, whatever hooks are
/// registered behind it.
pub proof fn lemma_stopping_hook_prevents_append<H>(
    received_hooks: Seq<H>,
    executed_hooks: Seq<H>,
    received: Seq<BrokerVerdict>,
    stopping: int,
    before: BrokerView,
    session_before: Session,
    message: BrokerMessage,
    after: BrokerView,
    session_after: Session,
    result: Result<Reply, BrokerError>,
    reliable: bool,
    failure_after: Option<StorageError>,
) where
    H: OnRequestReceived<Request = BrokerMessage, HookResult = BrokerVerdict> + OnRequestExecuted<
        Request = BrokerMessage,
        Response = Reply,
        HookResult = BrokerVerdict,
    >,

    requires
        0 <= stopping < received_hooks.len(),
        forall|v: BrokerVerdict| #[trigger]
            call_ensures(H::on_request_received, (&received_hooks[stopping], &message), v)
                ==> v is StopProcessing,
        forall|i: int, v: BrokerVerdict|
            0 <= i < stopping && #[trigger] call_ensures(
                H::on_request_received,
                (&received_hooks[i], &message),
                v,
            ) ==> v is Continue,
        handle_outcome(
            received_hooks,
            executed_hooks,
            received,
            before,
            session_before,
            message,
            after,
            session_after,
            result,
            reliable,
            failure_after,
        ),
    ensures
        after == before,
        after.storage == before.storage,
        session_after == session_before,
        result matches Err(BrokerError::HookError(d)) && d@ == stopped_text(),
{
    lemma_stopping_hook_aborts(received_hooks, message, received, stopping);
}

/// A verdict that stops the request, from whichever hook it came, leaves
/// the broker and the session as they were and gives the caller the hook
/// error of a stopped request; a verdict that reports an error does the
/// same with the detail of that error.
pub proof fn lemma_aborting_verdict_prevents_append<H>(
    received_hooks: Seq<H>,
    executed_hooks: Seq<H>,
    received: Seq<BrokerVerdict>,
    k: int,
    before: BrokerView,
    session_before: Session,
    message: BrokerMessage,
    after: BrokerView,
    session_after: Session,
    result: Result<Reply, BrokerError>,
    reliable: bool,
    failure_after: Option<StorageError>,
) where
    H: OnRequestReceived<Request = BrokerMessage, HookResult = BrokerVerdict> + OnRequestExecuted<
        Request = BrokerMessage,
        Response = Reply,
        HookResult = BrokerVerdict,
    >,

    requires
        0 <= k < received.len(),
        received[k] is StopProcessing || received[k] is Error,
        handle_outcome(
            received_hooks,
            executed_hooks,
            received,
            before,
            session_before,
            message,
            after,
            session_after,
            result,
            reliable,
            failure_after,
        ),
    ensures
        after == before,
        session_after == session_before,
        received[k] is StopProcessing ==> (result matches Err(BrokerError::HookError(d)) && d@
            == stopped_text()),
        received[k] matches BaseHookResult::Error(error) ==> (result matches Err(
            BrokerError::HookError(d),
        ) && d@ == error.message@),
{
    lemma_aborting_verdict_is_last(received_hooks, message, received, k);
}

} // verus!
