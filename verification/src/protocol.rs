//! The requests a broker accepts, the replies it gives, and the text of
//! each acknowledgement.

use vstd::prelude::*;
use vstd::string::*;
use crate::message::{clamp_seconds, Message, StoredMessage};
use crate::text::{decimal_digits, push_decimal, push_signed_decimal, signed_decimal};

verus! {

/// A request to the broker.
#[derive(Debug)]
pub enum BrokerMessage {
    Publish { key: String, topic: String, payload: Vec<u8> },
    Subscribe { consumer_id: String, topic: String },
    Consume { consumer_id: String },
    Register { client_id: String, client_type: String },
    UpdateOffset { consumer_id: String, topic: String, offset: i64 },
    GetMetrics,
}

/// One message as it is delivered to a consumer.
#[derive(Debug)]
pub struct ConsumeResponse {
    pub message_id: String,
    pub topic: String,
    pub payload: Vec<u8>,
    /// Seconds since the epoch at which the broker accepted the message.
    pub sent_at: i64,
    pub offset: i64,
}

/// The value of a [`ConsumeResponse`].
pub struct ConsumeResponseView {
    pub message_id: Seq<char>,
    pub topic: Seq<char>,
    pub payload: Seq<u8>,
    pub sent_at: i64,
    pub offset: i64,
}

impl View for ConsumeResponse {
    type V = ConsumeResponseView;

    open spec fn view(&self) -> ConsumeResponseView {
        ConsumeResponseView {
            message_id: self.message_id@,
            topic: self.topic@,
            payload: self.payload@,
            sent_at: self.sent_at,
            offset: self.offset,
        }
    }
}

impl Clone for ConsumeResponse {
    fn clone(&self) -> (copy: Self)
        ensures
            copy@ == self@,
    {
        ConsumeResponse {
            message_id: self.message_id.clone(),
            topic: self.topic.clone(),
            payload: self.payload.clone(),
            sent_at: self.sent_at,
            offset: self.offset,
        }
    }
}

impl Message for ConsumeResponse {
    open spec fn payload_of(value: ConsumeResponseView) -> Seq<u8> {
        value.payload
    }

    open spec fn timestamp_of(value: ConsumeResponseView) -> u64 {
        clamp_seconds(value.sent_at)
    }

    fn payload(&self) -> (bytes: &[u8]) {
        self.payload.as_slice()
    }

    fn timestamp(&self) -> (seconds: u64) {
        if self.sent_at < 0 {
            0
        } else {
            self.sent_at as u64
        }
    }

    fn duplicate(&self) -> (copy: Self) {
        self.clone()
    }
}

/// What a consumer is sent for a stored message: everything but the key.
pub open spec fn delivery_of(stored: crate::message::StoredMessageView) -> ConsumeResponseView {
    ConsumeResponseView {
        message_id: stored.message_id,
        topic: stored.topic,
        payload: stored.payload,
        sent_at: stored.created_at,
        offset: stored.offset,
    }
}

/// Builds the delivery of a stored message.
pub fn delivery_for(stored: &StoredMessage) -> (delivery: ConsumeResponse)
    ensures
        delivery@ == delivery_of(stored@),
{
    ConsumeResponse {
        message_id: stored.message_id.clone(),
        topic: stored.topic.clone(),
        payload: stored.payload.clone(),
        sent_at: stored.created_at,
        offset: stored.offset,
    }
}

/// The role a client declares when it registers.
#[derive(Clone, Copy, Debug, PartialEq, Eq, Structural)]
pub enum ClientRole {
    Producer,
    Consumer,
}

/// The role named by a client type: `producer` or `consumer`.
pub open spec fn role_of(client_type: Seq<char>) -> Option<ClientRole> {
    if client_type == "producer"@ {
        Some(ClientRole::Producer)
    } else if client_type == "consumer"@ {
        Some(ClientRole::Consumer)
    } else {
        None
    }
}

/// Reads the role from the client type of a registration.
pub fn parse_role(client_type: &str) -> (role: Option<ClientRole>)
    ensures
        role == role_of(client_type@),
{
    let given = String::from_str(client_type);
    if given == String::from_str("producer") {
        Some(ClientRole::Producer)
    } else if given == String::from_str("consumer") {
        Some(ClientRole::Consumer)
    } else {
        None
    }
}

/// The client type that names a role on the wire.
pub fn role_name(role: ClientRole) -> (name: &'static str)
    ensures
        role_of(name@) == Some(role),
{
    proof {
        reveal_strlit("producer");
        reveal_strlit("consumer");
    }
    match role {
        ClientRole::Producer => {
            "producer"
        },
        ClientRole::Consumer => {
            assert("consumer"@[0] != "producer"@[0]);
            "consumer"
        },
    }
}

/// Aggregate counters of a partition, derived from its storage engine.
#[derive(Clone, Copy, Debug, PartialEq, Eq, Structural)]
pub struct Metrics {
    /// The number of messages in the log.
    pub total_messages: u64,
    /// The sum of the payload sizes of the messages in the log.
    pub total_bytes: u64,
    /// The age in seconds of the oldest message in the log; 0 for an empty log.
    pub oldest_message_age: u64,
}

/// The success value of a request.
#[derive(Clone, Copy, Debug, PartialEq, Eq, Structural)]
pub enum Reply {
    Registered,
    Published { partition: u32, offset: i64 },
    Subscribed,
    Consuming,
    OffsetUpdated { offset: i64 },
    Metrics(Metrics),
}

/// The acknowledgement of a publish.
pub open spec fn published_text(partition: u32, offset: i64) -> Seq<char> {
    "Published to partition "@ + decimal_digits(partition as nat) + " with offset "@
        + signed_decimal(offset as int)
}

/// The acknowledgement of an offset update.
pub open spec fn offset_updated_text(offset: i64) -> Seq<char> {
    "Offset updated to "@ + signed_decimal(offset as int)
}

/// The text that reports the metrics.
pub open spec fn metrics_text(metrics: Metrics) -> Seq<char> {
    "Messages: "@ + decimal_digits(metrics.total_messages as nat) + ", bytes: "@ + decimal_digits(
        metrics.total_bytes as nat,
    ) + ", oldest message age: "@ + decimal_digits(metrics.oldest_message_age as nat)
}

impl Reply {
    /// The short human-readable acknowledgement of the reply.
    pub open spec fn text(&self) -> Seq<char> {
        match self {
            Reply::Registered => "Registered successfully"@,
            Reply::Published { partition, offset } => published_text(*partition, *offset),
            Reply::Subscribed => "Subscribed successfully"@,
            Reply::Consuming => "Consuming"@,
            Reply::OffsetUpdated { offset } => offset_updated_text(*offset),
            Reply::Metrics(metrics) => metrics_text(*metrics),
        }
    }

    /// Renders the acknowledgement.
    pub fn message(&self) -> (s: String)
        ensures
            s@ == self.text(),
    {
        match self {
            Reply::Registered => String::from_str("Registered successfully"),
            Reply::Published { partition, offset } => {
                let mut s = String::from_str("Published to partition ");
                push_decimal(&mut s, *partition as u64);
                s.append(" with offset ");
                push_signed_decimal(&mut s, *offset);
                s
            },
            Reply::Subscribed => String::from_str("Subscribed successfully"),
            Reply::Consuming => String::from_str("Consuming"),
            Reply::OffsetUpdated { offset } => {
                let mut s = String::from_str("Offset updated to ");
                push_signed_decimal(&mut s, *offset);
                s
            },
            Reply::Metrics(metrics) => {
                let mut s = String::from_str("Messages: ");
                push_decimal(&mut s, metrics.total_messages);
                s.append(", bytes: ");
                push_decimal(&mut s, metrics.total_bytes);
                s.append(", oldest message age: ");
                push_decimal(&mut s, metrics.oldest_message_age);
                s
            },
        }
    }
}

} // verus!
