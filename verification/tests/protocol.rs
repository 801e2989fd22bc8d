use rafka::cli::Commands;
use rafka::client::{
    consume_request, find_bytes, is_offset_ack, is_subscribed_ack, offset_after_update,
    on_delivery, publish_batch_requests, publish_request, register_request, subscribe_request,
    update_offset_request,
};
use rafka::clock::{timestamp_from, unix_seconds_now};
use rafka::config::{BrokerConfig, Config, ConfigError, LogConfig, ServerConfig, StorageConfig};
use rafka::errors::broker_error::{ownership_message, storage_outcome, BrokerError};
use rafka::errors::consumer_error::ConsumerError;
use rafka::errors::producer_error::ProducerError;
use rafka::errors::storage_error::StorageError;
use rafka::identity::{fresh_identifier, IDENTIFIER_LENGTH};
use rafka::message::{Message, StoredMessage};
use rafka::protocol::{
    delivery_for, parse_role, role_name, BrokerMessage, ClientRole, ConsumeResponse, Metrics, Reply,
};
use rafka::text::{decimal, push_decimal, push_signed_decimal};

#[test]
fn decimal_text_of_unsigned_numbers() {
    assert_eq!(decimal(0), "0");
    assert_eq!(decimal(7), "7");
    assert_eq!(decimal(10), "10");
    assert_eq!(decimal(1234567890), "1234567890");
    assert_eq!(decimal(u64::MAX), "18446744073709551615");
    for n in [0u64, 9, 10, 99, 100, 101, 4096, 999_999] {
        assert_eq!(decimal(n), n.to_string());
    }
    let mut text = String::from("n=");
    push_decimal(&mut text, 42);
    assert_eq!(text, "n=42");
}

#[test]
fn decimal_text_of_signed_numbers() {
    for n in [0i64, 1, -1, 10, -10, 12345, -12345, i64::MAX, i64::MIN, i64::MIN + 1] {
        let mut text = String::new();
        push_signed_decimal(&mut text, n);
        assert_eq!(text, n.to_string());
    }
    let mut text = String::from("<");
    push_signed_decimal(&mut text, -9223372036854775808);
    assert_eq!(text, "<-9223372036854775808");
}

#[test]
fn replies_render_their_acknowledgement() {
    assert_eq!(Reply::Registered.message(), "Registered successfully");
    assert_eq!(Reply::Subscribed.message(), "Subscribed successfully");
    assert_eq!(Reply::Consuming.message(), "Consuming");
    assert_eq!(
        Reply::Published { partition: 3, offset: 41 }.message(),
        "Published to partition 3 with offset 41"
    );
    assert_eq!(Reply::OffsetUpdated { offset: 12 }.message(), "Offset updated to 12");
    assert_eq!(
        Reply::Metrics(Metrics { total_messages: 1, total_bytes: 20, oldest_message_age: 300 })
            .message(),
        "Messages: 1, bytes: 20, oldest message age: 300"
    );
}

#[test]
fn broker_errors_render_their_kind() {
    assert_eq!(
        BrokerError::RegistrationFailed(String::from("x")).message(),
        "Registration failed: x"
    );
    assert_eq!(BrokerError::DispatchFailed(String::from("x")).message(), "Dispatch failed: x");
    assert_eq!(BrokerError::HookError(String::from("x")).message(), "Hook error: x");
    assert_eq!(BrokerError::InternalError(String::from("x")).message(), "Internal error: x");
    assert_eq!(BrokerError::ValidationFailed(String::from("x")).message(), "x");
    assert_eq!(
        BrokerError::StorageError(StorageError::NotFound(String::from("y"))).message(),
        "Storage error: Message not found: y"
    );
    assert_eq!(
        BrokerError::OwnershipError { owner: 2, partition: 0 }.message(),
        "Message belongs to partition 2 not 0"
    );
    assert_eq!(
        ownership_message(4294967295, 10),
        "Message belongs to partition 4294967295 not 10"
    );
}

#[test]
fn client_errors_render_their_kind() {
    assert_eq!(ConsumerError::BrokerError(String::from("x")).message(), "Broker error: x");
    assert_eq!(ConsumerError::ReceiveError(String::from("x")).message(), "Receive error: x");
    assert_eq!(ConsumerError::CommitError(String::from("x")).message(), "Commit error: x");
    assert_eq!(ProducerError::BrokerError(String::from("x")).message(), "Broker error: x");
    assert_eq!(ProducerError::SendError(String::from("x")).message(), "Send error: x");
    assert_eq!(ProducerError::FlushError(String::from("x")).message(), "Flush error: x");
    assert_eq!(ProducerError::InternalError(String::from("x")).message(), "Internal error: x");
    assert_eq!(ConfigError::Io(String::from("x")).message(), "I/O error: x");
    assert_eq!(ConfigError::Parse(String::from("x")).message(), "YAML parse error: x");
    assert_eq!(ConfigError::InvalidConfig(String::from("x")).message(), "Invalid configuration: x");
}

#[test]
fn roles_are_named_on_the_wire() {
    assert_eq!(parse_role("producer"), Some(ClientRole::Producer));
    assert_eq!(parse_role("consumer"), Some(ClientRole::Consumer));
    assert_eq!(parse_role("Producer"), None);
    assert_eq!(parse_role(""), None);
    assert_eq!(role_name(ClientRole::Producer), "producer");
    assert_eq!(role_name(ClientRole::Consumer), "consumer");
}

#[test]
fn delivery_drops_the_key_only() {
    let stored = StoredMessage {
        message_id: String::from("id"),
        topic: String::from("t"),
        key: String::from("k"),
        payload: vec![1, 2],
        offset: 4,
        created_at: 99,
    };
    let delivery = delivery_for(&stored);
    assert_eq!(delivery.message_id, "id");
    assert_eq!(delivery.topic, "t");
    assert_eq!(delivery.payload, vec![1, 2]);
    assert_eq!(delivery.offset, 4);
    assert_eq!(delivery.sent_at, 99);
    assert_eq!(delivery.payload(), &[1, 2]);
    assert_eq!(delivery.timestamp(), 99);
    let copy = delivery.duplicate();
    assert_eq!(copy.message_id, "id");
    assert_eq!(copy.offset, 4);
    let early = ConsumeResponse { sent_at: -1, ..copy };
    assert_eq!(early.timestamp(), 0);
}

#[test]
fn producer_requests() {
    match register_request("p-1", ClientRole::Producer) {
        BrokerMessage::Register { client_id, client_type } => {
            assert_eq!(client_id, "p-1");
            assert_eq!(client_type, "producer");
        }
        other => panic!("unexpected: {:?}", other),
    }
    match publish_request(String::from("greetings"), "Hello, world!", String::from("default-key")) {
        BrokerMessage::Publish { key, topic, payload } => {
            assert_eq!(key, "default-key");
            assert_eq!(topic, "greetings");
            assert_eq!(payload, b"Hello, world!");
        }
        other => panic!("unexpected: {:?}", other),
    }
    let batch = publish_batch_requests(
        &String::from("t"),
        vec![(String::from("k1"), String::from("m1")), (String::from("k2"), String::from("\u{e9}"))],
    );
    assert_eq!(batch.len(), 2);
    assert!(matches!(
        &batch[0],
        BrokerMessage::Publish { key, topic, payload } if key == "k1" && topic == "t" && payload == b"m1"
    ));
    assert!(matches!(
        &batch[1],
        BrokerMessage::Publish { key, topic, payload }
            if key == "k2" && topic == "t" && payload == &[0xC3, 0xA9]
    ));
    assert!(publish_batch_requests(&String::from("t"), vec![]).is_empty());
}

#[test]
fn consumer_requests() {
    assert!(matches!(
        register_request("c-1", ClientRole::Consumer),
        BrokerMessage::Register { client_id, client_type }
            if client_id == "c-1" && client_type == "consumer"
    ));
    assert!(matches!(
        subscribe_request("c-1", String::from("greetings")),
        BrokerMessage::Subscribe { consumer_id, topic } if consumer_id == "c-1" && topic == "greetings"
    ));
    assert!(matches!(
        consume_request("c-1"),
        BrokerMessage::Consume { consumer_id } if consumer_id == "c-1"
    ));
    assert!(matches!(
        update_offset_request("c-1", String::from("t"), 8),
        BrokerMessage::UpdateOffset { consumer_id, topic, offset }
            if consumer_id == "c-1" && topic == "t" && offset == 8
    ));
}

#[test]
fn consumer_reports_each_delivered_offset() {
    let delivery = ConsumeResponse {
        message_id: String::from("id"),
        topic: String::from("ignored"),
        payload: vec![7, 7],
        sent_at: 1,
        offset: 12,
    };
    let (payload, update) = on_delivery("c-1", &String::from("greetings"), delivery);
    assert_eq!(payload, vec![7, 7]);
    assert!(matches!(
        update,
        BrokerMessage::UpdateOffset { consumer_id, topic, offset }
            if consumer_id == "c-1" && topic == "greetings" && offset == 12
    ));
}

#[test]
fn acknowledgements_are_recognised() {
    assert!(is_subscribed_ack("Subscribed successfully"));
    assert!(!is_subscribed_ack("Subscribed successfully "));
    assert!(!is_subscribed_ack("Topic not found"));
    assert!(is_offset_ack("Offset updated to 5"));
    assert!(is_offset_ack("ok: Offset updated"));
    assert!(!is_offset_ack("Offset cannot be negative"));
    assert!(!is_offset_ack("Offset update"));
    assert!(!is_offset_ack(""));
    assert!(is_offset_ack(&Reply::OffsetUpdated { offset: 3 }.message()));
    assert!(is_subscribed_ack(&Reply::Subscribed.message()));
    assert_eq!(offset_after_update(4, 9, "Offset updated to 9"), 9);
    assert_eq!(offset_after_update(4, 9, "Topic not found"), 4);
}

#[test]
fn byte_search_finds_every_position() {
    assert!(find_bytes(b"abc", b""));
    assert!(find_bytes(b"", b""));
    assert!(!find_bytes(b"", b"a"));
    assert!(find_bytes(b"abc", b"abc"));
    assert!(find_bytes(b"abc", b"a"));
    assert!(find_bytes(b"abc", b"c"));
    assert!(find_bytes(b"aab", b"ab"));
    assert!(!find_bytes(b"abc", b"abcd"));
    assert!(!find_bytes(b"abc", b"ac"));
}

#[test]
fn fresh_identifiers_are_distinct_uuids() {
    let a = fresh_identifier();
    let b = fresh_identifier();
    assert_eq!(IDENTIFIER_LENGTH, 36);
    assert_eq!(a.len(), 36);
    assert_ne!(a, b);
    let groups: Vec<usize> = a.split('-').map(|g| g.len()).collect();
    assert_eq!(groups, vec![8, 4, 4, 4, 12]);
    assert!(a.chars().all(|c| c == '-' || c.is_ascii_hexdigit()));
    assert_eq!(a.chars().nth(14), Some('4'));
}

#[test]
fn clock_reads_seconds_since_the_epoch() {
    let first = unix_seconds_now();
    let second = unix_seconds_now();
    assert!(first > 1_700_000_000);
    assert!(second >= first);
    assert!(second - first < 60);
    assert_eq!(timestamp_from(None), 0);
    assert_eq!(timestamp_from(Some(0)), 0);
    assert_eq!(timestamp_from(Some(1_700_000_000)), 1_700_000_000);
    assert_eq!(timestamp_from(Some(i64::MAX as u64)), i64::MAX);
    assert_eq!(timestamp_from(Some(i64::MAX as u64 + 1)), i64::MAX);
    assert_eq!(timestamp_from(Some(u64::MAX)), i64::MAX);
}

#[test]
fn commands_are_checked_before_they_run() {
    let broker = |partition, total_partition| Commands::Broker {
        port: 50051,
        partition,
        total_partition,
        retention_secs: 1,
    };
    assert!(broker(0, 1).is_valid());
    assert!(broker(2, 3).is_valid());
    assert!(!broker(0, 0).is_valid());
    assert!(!broker(3, 3).is_valid());
    assert!(Commands::Consumer { port: 1, partition: 9 }.is_valid());
    let producer = |brokers: Vec<String>| Commands::Producer {
        brokers,
        key: String::from("default-key"),
        topic: String::from("greetings"),
        message: String::from("Hello, world!"),
    };
    assert!(producer(vec![String::from("127.0.0.1:50051")]).is_valid());
    assert!(!producer(vec![]).is_valid());
}

#[test]
fn configuration_is_plain_data() {
    let config = Config {
        server: ServerConfig { host: String::from("127.0.0.1"), port: 50051 },
        log: LogConfig { level: String::from("info") },
        broker: BrokerConfig { replication_factor: 1, default_topic_partitions: 3 },
        storage: StorageConfig { storage_type: String::from("in_memory"), path: None },
    };
    assert_eq!(config.server.port, 50051);
    assert_eq!(config.log.level, "info");
    assert_eq!(config.broker.default_topic_partitions, 3);
    assert_eq!(config.storage.storage_type, "in_memory");
    assert!(config.storage.path.is_none());
}

#[test]
fn storage_outcome_carries_the_error_untouched() {
    let failure = storage_outcome::<()>(Err(StorageError::IoError(String::from("disk full"))));
    assert!(matches!(
        &failure,
        Err(BrokerError::StorageError(StorageError::IoError(d))) if d == "disk full"
    ));
    let failure = storage_outcome::<u64>(Err(StorageError::NotFound(String::from("x"))));
    assert_eq!(failure.unwrap_err().message(), "Storage error: Message not found: x");
    assert_eq!(storage_outcome(Ok::<u64, StorageError>(7)).unwrap(), 7);
}
