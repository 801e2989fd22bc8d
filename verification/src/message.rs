//! Messages: the interface the storage engine and the brokers work with, and
//! the record a partition keeps for each published message.

use vstd::prelude::*;

verus! {

/// A message in the messaging system.
///
/// The view of a message is its value: two messages with the same view are
/// the same message to every contract of this library.
pub trait Message: View + Sized {
    /// The payload bytes of a message with value `value`.
    spec fn payload_of(value: Self::V) -> Seq<u8>;

    /// The timestamp of a message with value `value`.
    spec fn timestamp_of(value: Self::V) -> u64;

    /// Returns the payload of the message.
    fn payload(&self) -> (bytes: &[u8])
        ensures
            bytes@ == Self::payload_of(self@),
    ;

    /// Returns the timestamp of the message, in seconds since the epoch.
    fn timestamp(&self) -> (seconds: u64)
        ensures
            seconds == Self::timestamp_of(self@),
    ;

    /// Returns a copy with the same value.
    fn duplicate(&self) -> (copy: Self)
        ensures
            copy@ == self@,
    ;
}

/// The views of the messages of `messages`, in order.
pub open spec fn views<M: Message>(messages: Seq<M>) -> Seq<M::V> {
    messages.map_values(|m: M| m@)
}

/// Copies every message of `messages`, in order.
pub fn duplicate_all<M: Message>(messages: &Vec<M>) -> (copies: Vec<M>)
    ensures
        views(copies@) == views(messages@),
{
    let mut copies: Vec<M> = Vec::new();
    let mut i: usize = 0;
    while i < messages.len()
        invariant
            i <= messages.len(),
            copies@.len() == i,
            forall|j: int| 0 <= j < i ==> (#[trigger] copies@[j])@ == messages@[j]@,
        decreases messages.len() - i,
    {
        copies.push(messages[i].duplicate());
        i = i + 1;
    }
    assert(views(copies@) =~= views(messages@));
    copies
}

/// The record a partition keeps of one published message.
#[derive(Debug)]
pub struct StoredMessage {
    /// Unique identifier, generated when the message is published.
    pub message_id: String,
    pub topic: String,
    pub key: String,
    pub payload: Vec<u8>,
    /// Position in the partition's log, assigned by the broker.
    pub offset: i64,
    /// Seconds since the epoch at which the broker accepted the message.
    pub created_at: i64,
}

/// The value of a [`StoredMessage`].
pub struct StoredMessageView {
    pub message_id: Seq<char>,
    pub topic: Seq<char>,
    pub key: Seq<char>,
    pub payload: Seq<u8>,
    pub offset: i64,
    pub created_at: i64,
}

impl View for StoredMessage {
    type V = StoredMessageView;

    open spec fn view(&self) -> StoredMessageView {
        StoredMessageView {
            message_id: self.message_id@,
            topic: self.topic@,
            key: self.key@,
            payload: self.payload@,
            offset: self.offset,
            created_at: self.created_at,
        }
    }
}

/// The timestamp a record reports: its creation time, or 0 for a record
/// created before the epoch.
pub open spec fn clamp_seconds(created_at: i64) -> u64 {
    if created_at < 0 {
        0
    } else {
        created_at as u64
    }
}

impl Clone for StoredMessage {
    fn clone(&self) -> (copy: Self)
        ensures
            copy@ == self@,
    {
        StoredMessage {
            message_id: self.message_id.clone(),
            topic: self.topic.clone(),
            key: self.key.clone(),
            payload: self.payload.clone(),
            offset: self.offset,
            created_at: self.created_at,
        }
    }
}

impl Message for StoredMessage {
    open spec fn payload_of(value: StoredMessageView) -> Seq<u8> {
        value.payload
    }

    open spec fn timestamp_of(value: StoredMessageView) -> u64 {
        clamp_seconds(value.created_at)
    }

    fn payload(&self) -> (bytes: &[u8]) {
        self.payload.as_slice()
    }

    fn timestamp(&self) -> (seconds: u64) {
        if self.created_at < 0 {
            0
        } else {
            self.created_at as u64
        }
    }

    fn duplicate(&self) -> (copy: Self) {
        self.clone()
    }
}

} // verus!
