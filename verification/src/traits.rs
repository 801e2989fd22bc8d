//! The roles of the messaging system as interfaces: broker, producer,
//! consumer, and what can be configured.

use vstd::prelude::*;
use crate::config::{Config, ConfigError};
use crate::errors::broker_error::BrokerError;
use crate::errors::consumer_error::ConsumerError;
use crate::errors::producer_error::ProducerError;
use crate::message::Message;

verus! {

/// A message broker. Implementors define the types of the producer and
/// consumer identities and of the messages.
pub trait Broker {
    type ProducerId;

    type ConsumerId;

    type Msg: Message;

    /// The broker's own invariant.
    spec fn wf(&self) -> bool;

    /// Every message that was handed to `dispatch_message` so far, in the
    /// order of the calls, whether the dispatch succeeded or not.
    spec fn dispatched(&self) -> Seq<<Self::Msg as View>::V>;

    /// Whether a producer is registered under `producer_id`.
    spec fn has_producer(&self, producer_id: Self::ProducerId) -> bool;

    /// Whether a consumer is registered under `consumer_id`.
    spec fn has_consumer(&self, consumer_id: Self::ConsumerId) -> bool;

    /// Whether the broker, as it stands, is sure to register a producer
    /// under `producer_id`.
    spec fn admits_producer(&self, producer_id: Self::ProducerId) -> bool;

    /// Whether the broker, as it stands, is sure to register a consumer
    /// under `consumer_id`.
    spec fn admits_consumer(&self, consumer_id: Self::ConsumerId) -> bool;

    /// Whether the broker, as it stands, is sure to take every message of
    /// `messages`, dispatched one after the other with nothing in between.
    spec fn accepts_run(&self, messages: Seq<<Self::Msg as View>::V>) -> bool;

    /// Registers a producer with the broker: an identity that is
    /// registered already is refused, and one that was registered is
    /// registered afterwards. Whoever was registered stays so, and what
    /// the broker was sure to take before, it is sure to take afterwards.
    fn register_producer(&mut self, producer_id: Self::ProducerId) -> (result: Result<
        (),
        BrokerError,
    >)
        requires
            old(self).wf(),
        ensures
            final(self).wf(),
            final(self).dispatched() == old(self).dispatched(),
            old(self).admits_producer(producer_id) ==> result is Ok,
            old(self).has_producer(producer_id) ==> result is Err,
            result is Ok ==> final(self).has_producer(producer_id),
            forall|other: Self::ProducerId| #[trigger]
                old(self).has_producer(other) ==> final(self).has_producer(other),
            forall|other: Self::ConsumerId|
                old(self).has_consumer(other) == #[trigger] final(self).has_consumer(other),
            forall|run: Seq<<Self::Msg as View>::V>| #[trigger]
                old(self).accepts_run(run) ==> final(self).accepts_run(run),
    ;

    /// Registers a consumer with the broker: an identity that is
    /// registered already is refused, and one that was registered is
    /// registered afterwards. Whoever was registered stays so.
    fn register_consumer(&mut self, consumer_id: Self::ConsumerId) -> (result: Result<
        (),
        BrokerError,
    >)
        requires
            old(self).wf(),
        ensures
            final(self).wf(),
            final(self).dispatched() == old(self).dispatched(),
            old(self).admits_consumer(consumer_id) ==> result is Ok,
            old(self).has_consumer(consumer_id) ==> result is Err,
            result is Ok ==> final(self).has_consumer(consumer_id),
            forall|other: Self::ConsumerId| #[trigger]
                old(self).has_consumer(other) ==> final(self).has_consumer(other),
            forall|other: Self::ProducerId|
                old(self).has_producer(other) == #[trigger] final(self).has_producer(other),
    ;

    /// Dispatches a message to the appropriate consumers. A broker that was
    /// sure to take a run of messages that begins with this one takes it,
    /// and is then sure to take the rest of the run.
    fn dispatch_message(&mut self, message: Self::Msg) -> (result: Result<(), BrokerError>)
        requires
            old(self).wf(),
        ensures
            final(self).wf(),
            final(self).dispatched() == old(self).dispatched().push(message@),
            forall|run: Seq<<Self::Msg as View>::V>|
                run.len() > 0 && run[0] == message@ && #[trigger] old(self).accepts_run(run) ==> result is Ok
                    && final(self).accepts_run(run.drop_first()),
    ;
}

/// A producer: it accepts messages and sends them to a broker on a flush.
pub trait Producer {
    /// The type of messages produced.
    type Msg: Message;

    /// The broker the producer sends to.
    type Target: Broker;

    /// The messages accepted and not yet flushed, as values.
    spec fn buffered(&self) -> Seq<<Self::Msg as View>::V>;

    /// Accepts a message for sending. It is kept until the next flush.
    fn send(&mut self, message: Self::Msg) -> (result: Result<(), ProducerError>)
        ensures
            result is Ok ==> final(self).buffered() == old(self).buffered().push(message@),
    ;

    /// Sends the buffered messages to the broker, oldest first. Nothing
    /// stays buffered, whether or not the broker took every message.
    fn flush(&mut self, broker: &mut Self::Target) -> (result: Result<(), ProducerError>)
        requires
            old(broker).wf(),
        ensures
            final(broker).wf(),
            final(self).buffered().len() == 0,
            result is Ok ==> final(broker).dispatched().len() == old(broker).dispatched().len() + old(
                self,
            ).buffered().len(),
    ;
}

/// A consumer: it is polled for the next message and commits what it read.
pub trait Consumer {
    type Msg: Message;

    /// The messages waiting to be polled, oldest first, as values.
    spec fn waiting(&self) -> Seq<<Self::Msg as View>::V>;

    /// Polls for the next available message; `Ok(None)` when none waits.
    fn poll(&mut self) -> (result: Result<Option<Self::Msg>, ConsumerError>)
        ensures
            result matches Ok(Some(message)) ==> old(self).waiting().len() > 0 && message@ == old(
                self,
            ).waiting()[0] && final(self).waiting() == old(self).waiting().drop_first(),
            result matches Ok(None) ==> old(self).waiting().len() == 0 && final(self).waiting()
                == old(self).waiting(),
    ;

    /// Commits the offset of the last consumed message.
    fn commit(&self) -> (result: Result<(), ConsumerError>);
}

/// Something that takes its settings from a configuration.
pub trait Configurable {
    fn configure(&mut self, config: &Config) -> (result: Result<(), ConfigError>);
}

} // verus!
