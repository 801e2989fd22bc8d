use rafka::broker::{Broker, BROADCAST_CAPACITY};
use rafka::broker_state::{BrokerVerdict, Session};
use rafka::errors::broker_error::BrokerError;
use rafka::errors::storage_error::StorageError;
use rafka::hooks::{BaseHookResult, OnRequestExecuted, OnRequestReceived};
use rafka::hooks_integration::BrokerHookError;
use rafka::in_memory::InMemoryStorage;
use rafka::message::{StoredMessage, StoredMessageView};
use rafka::partitioner::hash_key;
use rafka::protocol::{BrokerMessage, Metrics, Reply};
use rafka::storage_engine::{LogState, StorageEngine};
use std::sync::atomic::{AtomicUsize, Ordering};
use std::sync::Arc;

enum Hook {
    Pass,
    Stop,
    Fail(&'static str),
    Retopic(&'static str),
    Count(Arc<AtomicUsize>),
    Answer(Reply),
    StopAfter,
}

impl OnRequestReceived for Hook {
    type Request = BrokerMessage;
    type HookResult = BrokerVerdict;

    fn on_request_received(&self, request: &BrokerMessage) -> BrokerVerdict {
        match self {
            Hook::Stop => BaseHookResult::StopProcessing,
            Hook::Fail(detail) => {
                BaseHookResult::Error(BrokerHookError { message: String::from(*detail) })
            }
            Hook::Retopic(topic) => match request {
                BrokerMessage::Publish { key, payload, .. } => {
                    BaseHookResult::ModifyRequest(BrokerMessage::Publish {
                        key: key.clone(),
                        topic: String::from(*topic),
                        payload: payload.clone(),
                    })
                }
                _ => BaseHookResult::Continue,
            },
            Hook::Count(counter) => {
                counter.fetch_add(1, Ordering::SeqCst);
                BaseHookResult::Continue
            }
            _ => BaseHookResult::Continue,
        }
    }
}

impl OnRequestExecuted for Hook {
    type Request = BrokerMessage;
    type Response = Reply;
    type HookResult = BrokerVerdict;

    fn on_request_executed(&self, _request: &BrokerMessage, _response: &Reply) -> BrokerVerdict {
        match self {
            Hook::Answer(reply) => BaseHookResult::ModifyResponse(*reply),
            Hook::StopAfter => BaseHookResult::StopProcessing,
            Hook::Count(counter) => {
                counter.fetch_add(1, Ordering::SeqCst);
                BaseHookResult::Continue
            }
            _ => BaseHookResult::Continue,
        }
    }
}

type MemoryBroker = Broker<InMemoryStorage<StoredMessage>, Hook>;

fn publish(key: &str, topic: &str, payload: &str) -> BrokerMessage {
    BrokerMessage::Publish {
        key: String::from(key),
        topic: String::from(topic),
        payload: payload.as_bytes().to_vec(),
    }
}

fn register(id: &str, role: &str) -> BrokerMessage {
    BrokerMessage::Register { client_id: String::from(id), client_type: String::from(role) }
}

fn producer_session(broker: &mut MemoryBroker, id: &str) -> Session {
    let mut session = Session::Unregistered;
    assert_eq!(broker.handle(&mut session, register(id, "producer")).unwrap(), Reply::Registered);
    session
}

fn consumer_session(broker: &mut MemoryBroker, id: &str, topic: &str) -> Session {
    let mut session = Session::Unregistered;
    assert_eq!(broker.handle(&mut session, register(id, "consumer")).unwrap(), Reply::Registered);
    let subscribe =
        BrokerMessage::Subscribe { consumer_id: String::from(id), topic: String::from(topic) };
    assert_eq!(broker.handle(&mut session, subscribe).unwrap(), Reply::Subscribed);
    let consume = BrokerMessage::Consume { consumer_id: String::from(id) };
    assert_eq!(broker.handle(&mut session, consume).unwrap(), Reply::Consuming);
    session
}

fn log_len(broker: &MemoryBroker) -> u64 {
    broker.storage().latest_offset().unwrap()
}

/// A key that hashes to `partition` out of `total`.
fn key_for(partition: u32, total: u32) -> String {
    (0..1000)
        .map(|i| format!("key-{}", i))
        .find(|key| hash_key(key) % total == partition)
        .unwrap()
}

#[test]
fn helloworld_test() {
    const TOPIC: &str = "greetings";
    const MESSAGE: &str = "Hello, world!";
    const KEY: &str = "default-key";

    let mut broker = MemoryBroker::new(0, 1);
    let mut consumer = consumer_session(&mut broker, "consumer-1", TOPIC);
    let mut producer = producer_session(&mut broker, "producer-1");

    let reply = broker.handle(&mut producer, publish(KEY, TOPIC, MESSAGE)).unwrap();
    assert_eq!(reply, Reply::Published { partition: 0, offset: 0 });
    assert_eq!(reply.message(), "Published to partition 0 with offset 0");

    let delivered = broker.next_delivery("consumer-1").unwrap();
    assert_eq!(delivered.payload, MESSAGE.as_bytes());
    assert_eq!(String::from_utf8(delivered.payload.clone()).unwrap(), MESSAGE);
    assert_eq!(delivered.offset, 0);
    assert_eq!(delivered.topic, TOPIC);
    assert_eq!(delivered.message_id.len(), 36);
    assert!(delivered.sent_at > 0);
    assert!(broker.next_delivery("consumer-1").is_none());

    let ack = BrokerMessage::UpdateOffset {
        consumer_id: String::from("consumer-1"),
        topic: String::from(TOPIC),
        offset: delivered.offset,
    };
    assert_eq!(broker.handle(&mut consumer, ack).unwrap(), Reply::OffsetUpdated { offset: 0 });
    assert_eq!(broker.consumer_offset("consumer-1", TOPIC), Some(0));
}

#[test]
fn offset_tracking_test() {
    const TOPIC: &str = "greetings";
    const EXPECTED_MESSAGES: [&str; 6] = [
        "Batch1-Message0",
        "Batch1-Message1",
        "Batch1-Message2",
        "Batch2-Message3",
        "Batch2-Message4",
        "Batch2-Message5",
    ];
    const KEYS: [&str; 6] = ["key-0", "key-1", "key-2", "key-3", "key-4", "key-5"];

    let mut broker = MemoryBroker::new(0, 1);
    let mut consumer = consumer_session(&mut broker, "consumer", TOPIC);

    for i in 0..3 {
        let mut producer = producer_session(&mut broker, &format!("producer-{}", i));
        let reply = broker.handle(&mut producer, publish(KEYS[i], TOPIC, EXPECTED_MESSAGES[i]));
        assert_eq!(reply.unwrap(), Reply::Published { partition: 0, offset: i as i64 });
    }
    for i in 3..6 {
        let mut producer = producer_session(&mut broker, &format!("producer-{}", i));
        let reply = broker.handle(&mut producer, publish(KEYS[i], TOPIC, EXPECTED_MESSAGES[i]));
        assert_eq!(reply.unwrap(), Reply::Published { partition: 0, offset: i as i64 });
    }

    let mut index = 0;
    while let Some(message) = broker.next_delivery("consumer") {
        assert_eq!(String::from_utf8(message.payload).unwrap(), EXPECTED_MESSAGES[index]);
        assert_eq!(message.offset, index as i64);
        let update = BrokerMessage::UpdateOffset {
            consumer_id: String::from("consumer"),
            topic: String::from(TOPIC),
            offset: message.offset,
        };
        broker.handle(&mut consumer, update).unwrap();
        assert_eq!(broker.consumer_offset("consumer", TOPIC), Some(index as i64));
        index += 1;
        if index == 5 {
            break;
        }
    }
    assert_eq!(index, 5);
}

#[test]
fn partitioned_test() {
    const BROKER_COUNT: usize = 3;
    const TOPIC: &str = "partitioned-topic";
    const MESSAGE_COUNT: usize = 9;
    const MESSAGES: [&str; 10] = [
        "Message-0",
        "Message-1",
        "Message-2",
        "Message-3",
        "Message-4",
        "Message-5",
        "Message-6",
        "Message-7",
        "Message-8",
        "Message-9",
    ];

    let mut brokers: Vec<MemoryBroker> = (0..BROKER_COUNT).map(|_| MemoryBroker::new(0, 1)).collect();
    for broker in brokers.iter_mut() {
        consumer_session(broker, "consumer", TOPIC);
    }
    for i in 0..MESSAGE_COUNT {
        let broker = &mut brokers[i % BROKER_COUNT];
        let mut producer = producer_session(broker, &format!("producer-{}", i));
        broker.handle(&mut producer, publish("default-key", TOPIC, MESSAGES[i])).unwrap();
    }
    for (i, broker) in brokers.iter_mut().enumerate() {
        let mut index = i;
        while let Some(message) = broker.next_delivery("consumer") {
            assert_eq!(String::from_utf8(message.payload).unwrap(), MESSAGES[index]);
            index += BROKER_COUNT;
            if index >= 9 {
                break;
            }
        }
        assert!(index >= 9);
    }
}

#[test]
fn retention_test() {
    const KEY: &str = "default-key";
    let mut broker = MemoryBroker::new(0, 1);
    consumer_session(&mut broker, "consumer", KEY);
    while let Some(message) = broker.next_delivery("consumer") {
        assert_eq!(String::from_utf8(message.payload).unwrap(), "message");
        return;
    }
    assert_eq!(log_len(&broker), 0);
}

#[test]
fn publish_to_the_wrong_partition_is_rejected() {
    let mut broker = MemoryBroker::new(0, 3);
    let mut producer = producer_session(&mut broker, "p");
    let key = key_for(2, 3);
    let result = broker.handle(&mut producer, publish(&key, "greetings", "x"));
    match result {
        Err(BrokerError::OwnershipError { owner, partition }) => {
            assert_eq!(owner, 2);
            assert_eq!(partition, 0);
        }
        other => panic!("unexpected: {:?}", other),
    }
    assert_eq!(log_len(&broker), 0);
    let error = broker.publish(key.clone(), String::from("greetings"), vec![1]).unwrap_err();
    assert_eq!(error.message(), "Message belongs to partition 2 not 0");
    assert_eq!(log_len(&broker), 0);
    // The rejected publish used up no offset and created no topic.
    let own = key_for(0, 3);
    let reply = broker.handle(&mut producer, publish(&own, "greetings", "x")).unwrap();
    assert_eq!(reply, Reply::Published { partition: 0, offset: 0 });
}

#[test]
fn rejection_names_the_owner_for_every_partition() {
    for total in 1..5u32 {
        for partition in 0..total {
            let mut broker = MemoryBroker::new(partition, total);
            for owner in 0..total {
                let key = key_for(owner, total);
                assert_eq!(broker.partition_for(&key), owner);
                assert_eq!(broker.owns_partition(&key), owner == partition);
                let result = broker.publish_with(
                    key,
                    String::from("t"),
                    vec![],
                    String::from("id"),
                    1,
                );
                if owner == partition {
                    assert!(result.is_ok());
                } else {
                    assert!(matches!(
                        result,
                        Err(BrokerError::OwnershipError { owner: o, partition: p })
                            if o == owner && p == partition
                    ));
                }
            }
            assert_eq!(log_len(&broker), 1);
        }
    }
}

#[test]
fn sequential_publishes_get_offsets_zero_to_n() {
    let mut broker = MemoryBroker::new(0, 1);
    for expected in 0..50i64 {
        let reply = broker
            .publish(format!("key-{}", expected), String::from("t"), vec![expected as u8])
            .unwrap();
        assert_eq!(reply, Reply::Published { partition: 0, offset: expected });
    }
    assert_eq!(log_len(&broker), 50);
    let stored = broker.storage().get_range(0, 50).unwrap();
    for (i, message) in stored.iter().enumerate() {
        assert_eq!(message.offset, i as i64);
        assert_eq!(message.key, format!("key-{}", i));
        assert_eq!(message.payload, vec![i as u8]);
    }
}

#[test]
fn publish_with_stores_the_given_identifier_and_time() {
    let mut broker = MemoryBroker::new(0, 1);
    broker.subscribe("c", "greetings");
    broker.consume("c");
    let reply = broker
        .publish_with(
            String::from("k"),
            String::from("greetings"),
            vec![1, 2, 3],
            String::from("the-id"),
            1234,
        )
        .unwrap();
    assert_eq!(reply, Reply::Published { partition: 0, offset: 0 });
    let stored = broker.storage().get(0).unwrap();
    assert_eq!(stored.message_id, "the-id");
    assert_eq!(stored.key, "k");
    assert_eq!(stored.topic, "greetings");
    assert_eq!(stored.payload, vec![1, 2, 3]);
    assert_eq!(stored.offset, 0);
    assert_eq!(stored.created_at, 1234);
    let delivered = broker.next_delivery("c").unwrap();
    assert_eq!(delivered.message_id, "the-id");
    assert_eq!(delivered.sent_at, 1234);
    assert_eq!(delivered.offset, 0);
    assert_eq!(delivered.payload, vec![1, 2, 3]);
}

#[test]
fn published_messages_get_distinct_identifiers() {
    let mut broker = MemoryBroker::new(0, 1);
    broker.publish(String::from("k"), String::from("t"), vec![]).unwrap();
    broker.publish(String::from("k"), String::from("t"), vec![]).unwrap();
    let first = broker.storage().get(0).unwrap();
    let second = broker.storage().get(1).unwrap();
    assert_ne!(first.message_id, second.message_id);
    assert_eq!(first.message_id.len(), 36);
    assert!(first.created_at > 1_600_000_000);
    assert!(second.created_at >= first.created_at);
}

#[test]
fn delivery_goes_to_subscribers_of_the_topic_only() {
    let mut broker = MemoryBroker::new(0, 1);
    consumer_session(&mut broker, "a", "news");
    consumer_session(&mut broker, "b", "sport");
    let mut both = consumer_session(&mut broker, "c", "news");
    let more = BrokerMessage::Subscribe {
        consumer_id: String::from("c"),
        topic: String::from("sport"),
    };
    broker.handle(&mut both, more).unwrap();
    for (topic, payload) in [("news", "n0"), ("sport", "s0"), ("other", "o0"), ("news", "n1")] {
        broker.publish(String::from("k"), String::from(topic), payload.as_bytes().to_vec()).unwrap();
    }
    let drain = |broker: &mut MemoryBroker, id: &str| -> Vec<String> {
        let mut seen = Vec::new();
        while let Some(message) = broker.next_delivery(id) {
            seen.push(String::from_utf8(message.payload).unwrap());
        }
        seen
    };
    assert_eq!(drain(&mut broker, "a"), vec!["n0", "n1"]);
    assert_eq!(drain(&mut broker, "b"), vec!["s0"]);
    assert_eq!(drain(&mut broker, "c"), vec!["n0", "s0", "n1"]);
    assert!(drain(&mut broker, "a").is_empty());
}

#[test]
fn consumer_that_is_not_attached_gets_nothing() {
    let mut broker = MemoryBroker::new(0, 1);
    broker.subscribe("c", "t");
    broker.publish(String::from("k"), String::from("t"), vec![1]).unwrap();
    assert!(broker.next_delivery("c").is_none());
    broker.consume("c");
    assert!(broker.next_delivery("c").is_none());
    broker.publish(String::from("k"), String::from("t"), vec![2]).unwrap();
    assert_eq!(broker.next_delivery("c").unwrap().payload, vec![2]);
}

#[test]
fn fan_out_is_lossy_under_load() {
    for (capacity, extra) in [(1usize, 1usize), (3, 2), (4, 1), (5, 7)] {
        let mut broker: MemoryBroker =
            Broker::with_storage(0, 1, InMemoryStorage::new(), capacity);
        consumer_session(&mut broker, "slow", "t");
        consumer_session(&mut broker, "fast", "t");
        let mut fast_seen = 0;
        for i in 0..capacity + extra {
            let reply = broker.publish(String::from("k"), String::from("t"), vec![i as u8]);
            assert_eq!(reply.unwrap(), Reply::Published { partition: 0, offset: i as i64 });
            while let Some(message) = broker.next_delivery("fast") {
                assert_eq!(message.offset, fast_seen as i64);
                fast_seen += 1;
            }
        }
        assert_eq!(fast_seen, capacity + extra);
        let mut slow_seen = Vec::new();
        while let Some(message) = broker.next_delivery("slow") {
            slow_seen.push(message.offset);
        }
        assert!(slow_seen.len() < capacity + extra);
        assert_eq!(slow_seen.len(), capacity);
        let expected: Vec<i64> = (extra as i64..(capacity + extra) as i64).collect();
        assert_eq!(slow_seen, expected);
        // Every message is in the log all the same, and the consumer goes on.
        assert_eq!(log_len(&broker), (capacity + extra) as u64);
        broker.publish(String::from("k"), String::from("t"), vec![0]).unwrap();
        assert_eq!(broker.next_delivery("slow").unwrap().offset, (capacity + extra) as i64);
    }
}

#[test]
fn default_capacity_is_sixteen_thousand() {
    assert_eq!(BROADCAST_CAPACITY, 16 * 1024);
}

#[test]
fn update_offset_validates_offset_and_topic() {
    let mut broker = MemoryBroker::new(0, 1);
    broker.subscribe("c", "greetings");

    let negative = broker.update_offset("c", "greetings", -1).unwrap_err();
    assert!(matches!(&negative, BrokerError::ValidationFailed(d) if d == "Offset cannot be negative"));
    assert_eq!(negative.message(), "Offset cannot be negative");
    assert_eq!(broker.consumer_offset("c", "greetings"), None);

    let unknown = broker.update_offset("c", "never-created", 3).unwrap_err();
    assert!(matches!(&unknown, BrokerError::ValidationFailed(d) if d == "Topic not found"));
    assert_eq!(broker.consumer_offset("c", "never-created"), None);

    let both = broker.update_offset("c", "never-created", i64::MIN).unwrap_err();
    assert_eq!(both.message(), "Offset cannot be negative");

    assert_eq!(broker.update_offset("c", "greetings", 0).unwrap(), Reply::OffsetUpdated { offset: 0 });
    assert_eq!(broker.consumer_offset("c", "greetings"), Some(0));
    assert_eq!(broker.update_offset("c", "greetings", 7).unwrap().message(), "Offset updated to 7");
    // Moving backwards is allowed: the tracker is a raw cursor store.
    broker.update_offset("c", "greetings", 2).unwrap();
    assert_eq!(broker.consumer_offset("c", "greetings"), Some(2));
    broker.update_offset("c", "greetings", -5).unwrap_err();
    assert_eq!(broker.consumer_offset("c", "greetings"), Some(2));
}

#[test]
fn update_offset_works_for_a_topic_created_by_publish() {
    let mut broker = MemoryBroker::new(0, 1);
    broker.publish(String::from("k"), String::from("made"), vec![]).unwrap();
    assert!(broker.update_offset("anyone", "made", i64::MAX).is_ok());
    assert_eq!(broker.consumer_offset("anyone", "made"), Some(i64::MAX));
    broker.ensure_topic("by-hand");
    assert!(broker.update_offset("anyone", "by-hand", 1).is_ok());
    broker.set_consumer_offset("raw", "nowhere", -9);
    assert_eq!(broker.consumer_offset("raw", "nowhere"), Some(-9));
}

#[test]
fn metrics_are_derived_from_the_log() {
    let mut broker = MemoryBroker::new(0, 1);
    assert_eq!(
        broker.metrics_at(100).unwrap(),
        Metrics { total_messages: 0, total_bytes: 0, oldest_message_age: 0 }
    );
    broker
        .publish_with(String::from("k"), String::from("t"), vec![0; 10], String::from("a"), 1000)
        .unwrap();
    broker
        .publish_with(String::from("k"), String::from("t"), vec![0; 5], String::from("b"), 1500)
        .unwrap();
    assert_eq!(
        broker.metrics_at(1600).unwrap(),
        Metrics { total_messages: 2, total_bytes: 15, oldest_message_age: 600 }
    );
    assert_eq!(broker.metrics_at(900).unwrap().oldest_message_age, 0);
    assert_eq!(log_len(&broker), 2);
    let now = broker.get_metrics().unwrap();
    assert_eq!(now.total_messages, 2);
    assert_eq!(now.total_bytes, 15);
    assert!(now.oldest_message_age > 1_000_000);
    assert_eq!(
        Reply::Metrics(broker.metrics_at(1600).unwrap()).message(),
        "Messages: 2, bytes: 15, oldest message age: 600"
    );
}

#[test]
fn metrics_age_spans_the_whole_range() {
    let mut broker = MemoryBroker::new(0, 1);
    broker
        .publish_with(String::from("k"), String::from("t"), vec![], String::from("a"), i64::MIN)
        .unwrap();
    assert_eq!(broker.metrics_at(i64::MAX).unwrap().oldest_message_age, u64::MAX);
    assert_eq!(broker.metrics_at(i64::MIN).unwrap().oldest_message_age, 0);
}

#[test]
fn get_metrics_request_changes_nothing() {
    let mut broker = MemoryBroker::new(0, 1);
    let mut session = producer_session(&mut broker, "p");
    broker.handle(&mut session, publish("k", "t", "abc")).unwrap();
    match broker.handle(&mut session, BrokerMessage::GetMetrics).unwrap() {
        Reply::Metrics(metrics) => {
            assert_eq!(metrics.total_messages, 1);
            assert_eq!(metrics.total_bytes, 3);
        }
        other => panic!("unexpected: {:?}", other),
    }
    assert_eq!(log_len(&broker), 1);
}

#[test]
fn unregistered_session_is_rejected() {
    let mut broker = MemoryBroker::new(0, 1);
    let mut session = Session::Unregistered;
    for request in [
        publish("k", "t", "x"),
        BrokerMessage::Subscribe { consumer_id: String::from("c"), topic: String::from("t") },
        BrokerMessage::Consume { consumer_id: String::from("c") },
        BrokerMessage::UpdateOffset {
            consumer_id: String::from("c"),
            topic: String::from("t"),
            offset: 1,
        },
        BrokerMessage::GetMetrics,
    ] {
        let error = broker.handle(&mut session, request).unwrap_err();
        assert!(
            matches!(&error, BrokerError::RegistrationFailed(d) if d == "Session is not registered")
        );
        assert_eq!(error.message(), "Registration failed: Session is not registered");
    }
    assert!(matches!(session, Session::Unregistered));
    assert_eq!(log_len(&broker), 0);
    assert!(broker.update_offset("c", "t", 1).is_err());
}

#[test]
fn registration_is_unique_per_role() {
    let mut broker = MemoryBroker::new(0, 1);
    let mut first = Session::Unregistered;
    assert_eq!(broker.register(&mut first, "alice", "producer").unwrap(), Reply::Registered);
    assert!(matches!(&first, Session::Registered { client_id, .. } if client_id == "alice"));
    // The same session may repeat its registration.
    assert_eq!(broker.register(&mut first, "alice", "producer").unwrap(), Reply::Registered);
    // It may not change its identity or role.
    let changed = broker.register(&mut first, "bob", "producer").unwrap_err();
    assert_eq!(changed.message(), "Registration failed: Session is already registered");
    let changed = broker.register(&mut first, "alice", "consumer").unwrap_err();
    assert_eq!(changed.message(), "Registration failed: Session is already registered");

    // Another session may not take an active identity of the same role.
    let mut second = Session::Unregistered;
    let duplicate = broker.register(&mut second, "alice", "producer").unwrap_err();
    assert_eq!(
        duplicate.message(),
        "Registration failed: Producer 'alice' is already registered"
    );
    assert!(matches!(second, Session::Unregistered));
    // The same name in the other role is another identity.
    assert_eq!(broker.register(&mut second, "alice", "consumer").unwrap(), Reply::Registered);
    let mut third = Session::Unregistered;
    let duplicate = broker.register(&mut third, "alice", "consumer").unwrap_err();
    assert_eq!(
        duplicate.message(),
        "Registration failed: Consumer 'alice' is already registered"
    );
    let unknown = broker.register(&mut third, "carol", "observer").unwrap_err();
    assert!(matches!(&unknown, BrokerError::ValidationFailed(d) if d == "Unknown client type"));
}

#[test]
fn closing_a_session_frees_its_identity() {
    let mut broker = MemoryBroker::new(0, 1);
    let mut session = consumer_session(&mut broker, "c", "t");
    broker.publish(String::from("k"), String::from("t"), vec![1]).unwrap();
    broker.close(&mut session);
    assert!(matches!(session, Session::Closed));
    assert!(broker.next_delivery("c").is_none());
    let closed = broker.handle(&mut session, publish("k", "t", "x")).unwrap_err();
    assert_eq!(closed.message(), "Registration failed: Session is closed");
    let closed = broker.handle(&mut session, register("c", "consumer")).unwrap_err();
    assert_eq!(closed.message(), "Registration failed: Session is closed");
    let mut again = Session::Unregistered;
    assert_eq!(broker.register(&mut again, "c", "consumer").unwrap(), Reply::Registered);
    let mut never = Session::Unregistered;
    broker.close(&mut never);
    assert!(matches!(never, Session::Closed));
}

#[test]
fn stopping_hook_prevents_the_append() {
    let mut broker = MemoryBroker::new(0, 1);
    let mut session = producer_session(&mut broker, "p");
    let later = Arc::new(AtomicUsize::new(0));
    broker.add_on_request_received_hook(Hook::Pass);
    broker.add_on_request_received_hook(Hook::Stop);
    broker.add_on_request_received_hook(Hook::Count(later.clone()));
    let error = broker.handle(&mut session, publish("k", "t", "x")).unwrap_err();
    assert!(matches!(&error, BrokerError::HookError(d) if d == "Processing stopped by hook"));
    assert_eq!(error.message(), "Hook error: Processing stopped by hook");
    assert_eq!(log_len(&broker), 0);
    assert_eq!(later.load(Ordering::SeqCst), 0);
    assert!(broker.update_offset("c", "t", 0).is_err());
    // Without the hooks the same operation goes through.
    assert!(broker.publish(String::from("k"), String::from("t"), vec![]).is_ok());
    assert_eq!(log_len(&broker), 1);
}

#[test]
fn failing_hook_passes_its_detail_on() {
    let mut broker = MemoryBroker::new(0, 1);
    let mut session = producer_session(&mut broker, "p");
    broker.add_on_request_received_hook(Hook::Fail("payload too large"));
    broker.add_on_request_received_hook(Hook::Stop);
    let error = broker.handle(&mut session, publish("k", "t", "x")).unwrap_err();
    assert!(matches!(&error, BrokerError::HookError(d) if d == "payload too large"));
    assert_eq!(log_len(&broker), 0);
}

#[test]
fn hooks_run_in_registration_order_and_may_replace_the_request() {
    let mut broker = MemoryBroker::new(0, 1);
    let mut session = producer_session(&mut broker, "p");
    let seen = Arc::new(AtomicUsize::new(0));
    broker.add_on_request_received_hook(Hook::Retopic("first"));
    broker.add_on_request_received_hook(Hook::Count(seen.clone()));
    broker.add_on_request_received_hook(Hook::Retopic("second"));
    let reply = broker.handle(&mut session, publish("k", "initial", "x")).unwrap();
    assert_eq!(reply, Reply::Published { partition: 0, offset: 0 });
    assert_eq!(seen.load(Ordering::SeqCst), 1);
    assert_eq!(broker.storage().get(0).unwrap().topic, "second");
    assert!(broker.update_offset("c", "second", 0).is_ok());
    assert!(broker.update_offset("c", "initial", 0).is_err());
    assert!(broker.update_offset("c", "first", 0).is_err());
}

#[test]
fn executed_hooks_see_the_reply_after_the_append() {
    let mut broker = MemoryBroker::new(0, 1);
    let mut session = producer_session(&mut broker, "p");
    broker.add_on_request_executed_hook(Hook::Answer(Reply::Subscribed));
    assert_eq!(broker.handle(&mut session, publish("k", "t", "x")).unwrap(), Reply::Subscribed);
    assert_eq!(log_len(&broker), 1);
    broker.add_on_request_executed_hook(Hook::StopAfter);
    let error = broker.handle(&mut session, publish("k", "t", "x")).unwrap_err();
    assert!(matches!(&error, BrokerError::HookError(d) if d == "Processing stopped by hook"));
    assert_eq!(log_len(&broker), 2);
}

#[test]
fn executed_hooks_do_not_run_on_a_failed_request() {
    let mut broker = MemoryBroker::new(0, 2);
    let mut session = producer_session(&mut broker, "p");
    let ran = Arc::new(AtomicUsize::new(0));
    broker.add_on_request_executed_hook(Hook::Count(ran.clone()));
    let key = key_for(1, 2);
    let error = broker.handle(&mut session, publish(&key, "t", "x")).unwrap_err();
    assert!(matches!(error, BrokerError::OwnershipError { owner: 1, partition: 0 }));
    assert_eq!(ran.load(Ordering::SeqCst), 0);
    let own = key_for(0, 2);
    broker.handle(&mut session, publish(&own, "t", "x")).unwrap();
    assert_eq!(ran.load(Ordering::SeqCst), 1);
}

#[test]
fn handle_admitted_passes_a_hook_error_on() {
    let mut broker = MemoryBroker::new(0, 1);
    let mut session = producer_session(&mut broker, "p");
    let rejected = Err(BrokerError::HookError(String::from("no")));
    let error = broker.handle_admitted(&mut session, rejected).unwrap_err();
    assert!(matches!(&error, BrokerError::HookError(d) if d == "no"));
    assert_eq!(log_len(&broker), 0);
    let admitted = Ok(publish("k", "t", "x"));
    assert!(broker.handle_admitted(&mut session, admitted).is_ok());
    assert_eq!(log_len(&broker), 1);
}

#[test]
fn process_uses_the_given_identifier_and_time() {
    let mut broker = MemoryBroker::new(0, 1);
    let mut session = Session::Unregistered;
    broker.process(&mut session, &register("p", "producer"), String::from("unused"), 0).unwrap();
    let reply = broker
        .process(&mut session, &publish("k", "t", "abc"), String::from("fixed-id"), 77)
        .unwrap();
    assert_eq!(reply, Reply::Published { partition: 0, offset: 0 });
    let stored = broker.storage().get(0).unwrap();
    assert_eq!(stored.message_id, "fixed-id");
    assert_eq!(stored.created_at, 77);
    let metrics = broker
        .process(&mut session, &BrokerMessage::GetMetrics, String::from("unused"), 100)
        .unwrap();
    assert_eq!(
        metrics,
        Reply::Metrics(Metrics { total_messages: 1, total_bytes: 3, oldest_message_age: 23 })
    );
}

#[test]
fn broker_reports_its_partition() {
    let broker = MemoryBroker::new(2, 5);
    assert_eq!(broker.partition_id(), 2);
    assert_eq!(broker.total_partitions(), 5);
}

struct FailingStorage {
    inner: InMemoryStorage<StoredMessage>,
    fail_appends: bool,
}

impl StorageEngine for FailingStorage {
    type Msg = StoredMessage;

    // The three functions below exist for proofs only and are never run.
    fn state(&self) -> LogState<StoredMessageView> {
        unreachable!()
    }

    fn wf(&self) -> bool {
        unreachable!()
    }

    fn reliable() -> bool {
        unreachable!()
    }

    fn last_failure(&self) -> Option<StorageError> {
        unreachable!()
    }

    fn append(&mut self, message: StoredMessage) -> Result<(), StorageError> {
        if self.fail_appends {
            Err(StorageError::IoError(String::from("disk full")))
        } else {
            self.inner.append(message)
        }
    }

    fn get(&self, offset: u64) -> Result<StoredMessage, StorageError> {
        self.inner.get(offset)
    }

    fn get_range(&self, start: u64, end: u64) -> Result<Vec<StoredMessage>, StorageError> {
        self.inner.get_range(start, end)
    }

    fn latest_offset(&self) -> Result<u64, StorageError> {
        if self.fail_appends {
            Err(StorageError::Unknown(String::from("offline")))
        } else {
            self.inner.latest_offset()
        }
    }

    fn snapshot(&mut self) -> Result<(), StorageError> {
        self.inner.snapshot()
    }

    fn recover(&mut self) -> Result<(), StorageError> {
        self.inner.recover()
    }
}

#[test]
fn storage_failure_is_passed_on_and_uses_up_the_offset() {
    let storage = FailingStorage { inner: InMemoryStorage::new(), fail_appends: true };
    let mut broker: Broker<FailingStorage, Hook> = Broker::with_storage(0, 1, storage, 4);
    broker.subscribe("c", "t");
    broker.consume("c");
    let error = broker.publish(String::from("k"), String::from("t"), vec![1]).unwrap_err();
    assert!(matches!(&error, BrokerError::StorageError(StorageError::IoError(d)) if d == "disk full"));
    assert_eq!(error.message(), "Storage error: I/O error occurred: disk full");
    assert!(broker.next_delivery("c").is_none());
    let metrics = broker.metrics_at(0).unwrap_err();
    assert_eq!(metrics.message(), "Storage error: Unknown error: offline");
}

#[test]
fn broker_snapshot_and_recover_keep_the_log() {
    let mut broker = MemoryBroker::new(0, 1);
    for i in 0..3u8 {
        broker.publish(String::from("k"), String::from("t"), vec![i]).unwrap();
    }
    broker.snapshot().unwrap();
    broker.recover().unwrap();
    assert_eq!(log_len(&broker), 3);
    broker.publish(String::from("k"), String::from("t"), vec![3]).unwrap();
    broker.recover().unwrap();
    let stored = broker.storage().get_range(0, 10).unwrap();
    let payloads: Vec<Vec<u8>> = stored.iter().map(|m| m.payload.clone()).collect();
    assert_eq!(payloads, vec![vec![0], vec![1], vec![2], vec![3]]);
    let offsets: Vec<i64> = stored.iter().map(|m| m.offset).collect();
    assert_eq!(offsets, vec![0, 1, 2, 3]);
    let reply = broker.publish(String::from("k"), String::from("t"), vec![4]).unwrap();
    assert_eq!(reply, Reply::Published { partition: 0, offset: 4 });
}

#[test]
fn is_consuming_follows_attach_and_close() {
    let mut broker = MemoryBroker::new(0, 1);
    assert!(!broker.is_consuming("c"));
    let mut session = consumer_session(&mut broker, "c", "t");
    assert!(broker.is_consuming("c"));
    broker.close(&mut session);
    assert!(!broker.is_consuming("c"));
}

#[test]
fn broker_resumes_behind_a_filled_log() {
    let mut storage = InMemoryStorage::new();
    for offset in 0..3 {
        storage
            .append(StoredMessage {
                message_id: format!("old-{}", offset),
                topic: String::from("t"),
                key: String::from("k"),
                payload: vec![],
                offset,
                created_at: 1,
            })
            .unwrap();
    }
    let mut broker: MemoryBroker = Broker::with_storage(0, 1, storage, 8);
    assert_eq!(broker.resume_offsets().unwrap(), 3);
    let reply = broker.publish(String::from("k"), String::from("t"), vec![]).unwrap();
    assert_eq!(reply, Reply::Published { partition: 0, offset: 3 });
    assert_eq!(broker.storage().get(3).unwrap().offset, 3);
    // The counter never moves back.
    assert_eq!(broker.resume_offsets().unwrap(), 4);
    let mut fresh = MemoryBroker::new(0, 1);
    assert_eq!(fresh.resume_offsets().unwrap(), 0);
}

#[test]
fn hooks_are_asked_in_the_order_they_were_added() {
    let mut broker = MemoryBroker::new(0, 1);
    let mut session = producer_session(&mut broker, "p");
    broker.add_on_request_received_hook(Hook::Fail("first"));
    broker.add_on_request_received_hook(Hook::Fail("second"));
    let error = broker.handle(&mut session, publish("k", "t", "x")).unwrap_err();
    assert!(matches!(&error, BrokerError::HookError(d) if d == "first"));
    assert_eq!(log_len(&broker), 0);
}
