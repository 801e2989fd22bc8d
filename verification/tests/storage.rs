use rafka::errors::storage_error::StorageError;
use rafka::factory::{create_storage_engine, StorageConfig};
use rafka::in_memory::InMemoryStorage;
use rafka::message::{Message, StoredMessage};
use rafka::storage_engine::StorageEngine;

fn record(offset: i64, payload: &str) -> StoredMessage {
    StoredMessage {
        message_id: format!("id-{}", offset),
        topic: String::from("greetings"),
        key: String::from("default-key"),
        payload: payload.as_bytes().to_vec(),
        offset,
        created_at: 1_700_000_000 + offset,
    }
}

fn same(a: &StoredMessage, b: &StoredMessage) -> bool {
    a.message_id == b.message_id
        && a.topic == b.topic
        && a.key == b.key
        && a.payload == b.payload
        && a.offset == b.offset
        && a.created_at == b.created_at
}

fn filled(count: i64) -> InMemoryStorage<StoredMessage> {
    let mut storage = InMemoryStorage::new();
    for offset in 0..count {
        storage.append(record(offset, &format!("m{}", offset))).unwrap();
    }
    storage
}

#[test]
fn new_storage_is_empty() {
    let storage: InMemoryStorage<StoredMessage> = InMemoryStorage::new();
    assert_eq!(storage.latest_offset().unwrap(), 0);
    assert!(storage.get_range(0, 10).unwrap().is_empty());
    assert!(storage.get(0).is_err());
}

#[test]
fn get_returns_what_was_appended() {
    let mut storage = InMemoryStorage::new();
    for offset in 0..5 {
        let at = storage.latest_offset().unwrap();
        assert_eq!(at, offset as u64);
        storage.append(record(offset, &format!("payload-{}", offset))).unwrap();
        let read = storage.get(at).unwrap();
        assert!(same(&read, &record(offset, &format!("payload-{}", offset))));
    }
    assert_eq!(storage.latest_offset().unwrap(), 5);
    assert!(same(&storage.get(2).unwrap(), &record(2, "payload-2")));
}

#[test]
fn get_beyond_the_log_is_not_found() {
    let storage = filled(3);
    match storage.get(3) {
        Err(StorageError::NotFound(detail)) => assert_eq!(detail, "No message at offset 3"),
        other => panic!("unexpected: {:?}", other),
    }
    match storage.get(u64::MAX) {
        Err(e) => assert_eq!(
            e.message(),
            "Message not found: No message at offset 18446744073709551615"
        ),
        Ok(_) => panic!("found a message beyond the log"),
    }
}

#[test]
fn get_range_clamps_the_end() {
    let storage = filled(4);
    let all = storage.get_range(0, u64::MAX).unwrap();
    assert_eq!(all.len(), 4);
    for (i, message) in all.iter().enumerate() {
        assert_eq!(message.offset, i as i64);
        assert_eq!(message.payload, format!("m{}", i).into_bytes());
    }
    assert!(storage.get_range(4, 9).unwrap().is_empty());
    assert!(storage.get_range(5, 9).unwrap().is_empty());
}

#[test]
fn get_range_returns_the_half_open_interval() {
    let storage = filled(6);
    let middle = storage.get_range(2, 5).unwrap();
    let offsets: Vec<i64> = middle.iter().map(|m| m.offset).collect();
    assert_eq!(offsets, vec![2, 3, 4]);
    assert!(storage.get_range(3, 3).unwrap().is_empty());
    assert!(storage.get_range(4, 2).unwrap().is_empty());
    let tail = storage.get_range(5, 6).unwrap();
    assert_eq!(tail.len(), 1);
    assert_eq!(tail[0].offset, 5);
}

#[test]
fn snapshot_then_recover_changes_nothing() {
    let mut storage = filled(5);
    let before = storage.get_range(0, 5).unwrap();
    storage.snapshot().unwrap();
    storage.recover().unwrap();
    assert_eq!(storage.latest_offset().unwrap(), 5);
    let after = storage.get_range(0, 5).unwrap();
    assert_eq!(after.len(), before.len());
    for (a, b) in after.iter().zip(before.iter()) {
        assert!(same(a, b));
    }
}

#[test]
fn recover_rebuilds_snapshot_then_wal() {
    let mut storage = filled(2);
    storage.snapshot().unwrap();
    storage.append(record(2, "m2")).unwrap();
    storage.append(record(3, "m3")).unwrap();
    storage.recover().unwrap();
    let offsets: Vec<i64> = storage.get_range(0, 10).unwrap().iter().map(|m| m.offset).collect();
    assert_eq!(offsets, vec![0, 1, 2, 3]);
}

#[test]
fn recover_twice_is_recover_once() {
    let mut storage = filled(3);
    storage.recover().unwrap();
    storage.recover().unwrap();
    assert_eq!(storage.latest_offset().unwrap(), 3);
    storage.snapshot().unwrap();
    storage.append(record(3, "m3")).unwrap();
    storage.recover().unwrap();
    storage.recover().unwrap();
    let offsets: Vec<i64> = storage.get_range(0, 10).unwrap().iter().map(|m| m.offset).collect();
    assert_eq!(offsets, vec![0, 1, 2, 3]);
}

#[test]
fn recover_without_snapshot_keeps_the_wal() {
    let mut storage = filled(3);
    storage.recover().unwrap();
    let offsets: Vec<i64> = storage.get_range(0, 10).unwrap().iter().map(|m| m.offset).collect();
    assert_eq!(offsets, vec![0, 1, 2]);
}

#[test]
fn appends_continue_after_a_snapshot() {
    let mut storage = filled(2);
    storage.snapshot().unwrap();
    storage.append(record(2, "m2")).unwrap();
    assert_eq!(storage.latest_offset().unwrap(), 3);
    assert!(same(&storage.get(2).unwrap(), &record(2, "m2")));
}

#[test]
fn stored_message_reports_payload_and_timestamp() {
    let message = record(7, "Hello");
    assert_eq!(message.payload(), b"Hello");
    assert_eq!(message.timestamp(), 1_700_000_007);
    let early = StoredMessage { created_at: -5, ..record(0, "x") };
    assert_eq!(early.timestamp(), 0);
    let copy = message.duplicate();
    assert!(same(&copy, &message));
}

#[test]
fn factory_creates_the_in_memory_engine() {
    let config = StorageConfig { storage_type: String::from("in_memory"), path: None };
    let engine = create_storage_engine::<StoredMessage>(&config).unwrap();
    assert_eq!(engine.latest_offset().unwrap(), 0);
}

#[test]
fn factory_rejects_an_unknown_engine() {
    let config = StorageConfig {
        storage_type: String::from("rocksdb"),
        path: Some(String::from("/tmp/db")),
    };
    match create_storage_engine::<StoredMessage>(&config) {
        Err(StorageError::InvalidConfig(detail)) => {
            assert_eq!(detail, "Unsupported storage type 'rocksdb'")
        }
        Err(other) => panic!("unexpected: {:?}", other),
        Ok(_) => panic!("created an engine"),
    }
}

#[test]
fn storage_errors_render_their_kind() {
    assert_eq!(StorageError::IoError(String::from("disk")).message(), "I/O error occurred: disk");
    assert_eq!(
        StorageError::SerializationError(String::from("bad")).message(),
        "Serialization error occurred: bad"
    );
    assert_eq!(StorageError::NotFound(String::from("x")).message(), "Message not found: x");
    assert_eq!(StorageError::RocksDbError(String::from("x")).message(), "RocksDB error occurred: x");
    assert_eq!(
        StorageError::InvalidConfig(String::from("x")).message(),
        "Invalid configuration: x"
    );
    assert_eq!(StorageError::Unknown(String::from("x")).message(), "Unknown error: x");
}
