//! What the clients of a broker decide: the requests a producer and a
//! consumer send, and how they read the broker's answers.

use vstd::prelude::*;
use vstd::string::*;
use crate::protocol::{role_name, role_of, BrokerMessage, ClientRole, ConsumeResponse};

verus! {

/// The request that registers `client_id` in `role`.
pub fn register_request(client_id: &str, role: ClientRole) -> (request: BrokerMessage)
    ensures
        request matches BrokerMessage::Register { client_id: id, client_type } && id@ == client_id@
            && role_of(client_type@) == Some(role),
{
    BrokerMessage::Register {
        client_id: String::from_str(client_id),
        client_type: String::from_str(role_name(role)),
    }
}

/// The request that publishes the text `message` under `key` to `topic`:
/// the payload is the UTF-8 encoding of the text.
pub fn publish_request(topic: String, message: &str, key: String) -> (request: BrokerMessage)
    ensures
        request matches BrokerMessage::Publish { key: k, topic: t, payload } && k == key && t
            == topic && payload@ == message.spec_bytes(),
{
    BrokerMessage::Publish { key, topic, payload: message.as_bytes_vec() }
}

/// The requests that publish a batch of (key, message) pairs to `topic`,
/// one request for each pair, in order.
pub fn publish_batch_requests(topic: &String, messages: Vec<(String, String)>) -> (requests: Vec<
    BrokerMessage,
>)
    ensures
        requests@.len() == messages@.len(),
        forall|i: int|
            0 <= i < messages@.len() ==> (#[trigger] requests@[i] matches BrokerMessage::Publish {
                key,
                topic: t,
                payload,
            } && key@ == messages@[i].0@ && t@ == topic@ && payload@ == vstd::utf8::encode_utf8(messages@[i].1@)),
{
    let mut requests: Vec<BrokerMessage> = Vec::new();
    let mut i: usize = 0;
    while i < messages.len()
        invariant
            i <= messages@.len(),
            requests@.len() == i,
            forall|j: int|
                0 <= j < i ==> (#[trigger] requests@[j] matches BrokerMessage::Publish {
                    key,
                    topic: t,
                    payload,
                } && key@ == messages@[j].0@ && t@ == topic@ && payload@
                    == vstd::utf8::encode_utf8(messages@[j].1@)),
        decreases messages@.len() - i,
    {
        let key = messages[i].0.clone();
        let request = publish_request(topic.clone(), messages[i].1.as_str(), key);
        requests.push(request);
        i = i + 1;
    }
    requests
}

/// The request that subscribes `consumer_id` to `topic`.
pub fn subscribe_request(consumer_id: &str, topic: String) -> (request: BrokerMessage)
    ensures
        request matches BrokerMessage::Subscribe { consumer_id: id, topic: t } && id@
            == consumer_id@ && t == topic,
{
    BrokerMessage::Subscribe { consumer_id: String::from_str(consumer_id), topic }
}

/// The request that starts the delivery to `consumer_id`.
pub fn consume_request(consumer_id: &str) -> (request: BrokerMessage)
    ensures
        request matches BrokerMessage::Consume { consumer_id: id } && id@ == consumer_id@,
{
    BrokerMessage::Consume { consumer_id: String::from_str(consumer_id) }
}

/// The request that records `offset` for `consumer_id` on `topic`.
pub fn update_offset_request(consumer_id: &str, topic: String, offset: i64) -> (request:
    BrokerMessage)
    ensures
        request matches BrokerMessage::UpdateOffset { consumer_id: id, topic: t, offset: o }
            && id@ == consumer_id@ && t == topic && o == offset,
{
    BrokerMessage::UpdateOffset { consumer_id: String::from_str(consumer_id), topic, offset }
}

/// What a consumer does with a delivery: it hands on the payload and
/// reports the delivered offset back to the broker.
pub fn on_delivery(consumer_id: &str, topic: &String, delivery: ConsumeResponse) -> (step: (
    Vec<u8>,
    BrokerMessage,
))
    ensures
        step.0 == delivery.payload,
        step.1 matches BrokerMessage::UpdateOffset { consumer_id: id, topic: t, offset } && id@
            == consumer_id@ && t@ == topic@ && offset == delivery.offset,
{
    let update = update_offset_request(consumer_id, topic.clone(), delivery.offset);
    (delivery.payload, update)
}

/// Whether `needle` occurs in `haystack` at position `at`.
pub open spec fn occurs_at(haystack: Seq<u8>, needle: Seq<u8>, at: int) -> bool {
    0 <= at && at + needle.len() <= haystack.len() && haystack.subrange(at, at + needle.len())
        == needle
}

/// Whether `needle` occurs somewhere in `haystack`.
pub open spec fn contains_bytes(haystack: Seq<u8>, needle: Seq<u8>) -> bool {
    exists|at: int| occurs_at(haystack, needle, at)
}

fn matches_at(haystack: &[u8], needle: &[u8], at: usize) -> (found: bool)
    requires
        at + needle.len() <= haystack.len(),
    ensures
        found == occurs_at(haystack@, needle@, at as int),
{
    let mut j: usize = 0;
    while j < needle.len()
        invariant
            j <= needle.len(),
            at + needle.len() <= haystack.len(),
            forall|k: int| 0 <= k < j ==> haystack@[at + k] == needle@[k],
        decreases needle@.len() - j,
    {
        if haystack[at + j] != needle[j] {
            assert(haystack@.subrange(at as int, at + needle@.len())[j as int] != needle@[j as int]);
            return false;
        }
        j = j + 1;
    }
    assert(haystack@.subrange(at as int, at + needle@.len()) =~= needle@);
    true
}

/// Searches `haystack` for `needle`.
pub fn find_bytes(haystack: &[u8], needle: &[u8]) -> (found: bool)
    ensures
        found == contains_bytes(haystack@, needle@),
{
    if needle.len() > haystack.len() {
        return false;
    }
    let last = haystack.len() - needle.len();
    let mut at: usize = 0;
    loop
        invariant
            at <= last,
            last == haystack.len() - needle.len(),
            forall|k: int| 0 <= k < at ==> !occurs_at(haystack@, needle@, k),
        decreases last - at,
    {
        if matches_at(haystack, needle, at) {
            return true;
        }
        if at == last {
            return false;
        }
        at = at + 1;
    }
}

/// Whether the broker's answer acknowledges a subscription.
pub fn is_subscribed_ack(response: &str) -> (acknowledged: bool)
    ensures
        acknowledged == (response@ == "Subscribed successfully"@),
{
    String::from_str(response) == String::from_str("Subscribed successfully")
}

/// Whether the broker's answer acknowledges an offset update: the answer
/// holds the words `Offset updated`.
pub fn is_offset_ack(response: &str) -> (acknowledged: bool)
    ensures
        acknowledged == contains_bytes(response.spec_bytes(), "Offset updated".spec_bytes()),
{
    find_bytes(response.as_bytes(), "Offset updated".as_bytes())
}

/// The offset a consumer knows as its own after the broker's answer to an
/// update to `offset`: the new one if the broker acknowledged it, the one
/// it had if not.
pub fn offset_after_update(current_offset: i64, offset: i64, response: &str) -> (known: i64)
    ensures
        known == (if contains_bytes(response.spec_bytes(), "Offset updated".spec_bytes()) {
            offset
        } else {
            current_offset
        }),
{
    if is_offset_ack(response) {
        offset
    } else {
        current_offset
    }
}

} // verus!
