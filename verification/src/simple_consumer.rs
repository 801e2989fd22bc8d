//! A consumer that is handed its deliveries and polled for them in order.

use vstd::prelude::*;
use crate::errors::broker_error::BrokerError;
use crate::errors::consumer_error::ConsumerError;
use crate::message::{views, Message};
use crate::traits::{Broker, Consumer};

verus! {

/// The consumer's error for an error of the broker: it carries the
/// broker error's text.
pub fn broker_failure(error: &BrokerError) -> (mapped: ConsumerError)
    ensures
        mapped matches ConsumerError::BrokerError(detail) && detail@ == error.text(),
{
    ConsumerError::BrokerError(error.message())
}

/// A simple consumer: the receiving end of a queue of messages.
#[verifier::reject_recursive_types(M)]
#[verifier::reject_recursive_types(B)]
pub struct SimpleConsumer<M: Message, B: Broker> {
    inbox: Vec<M>,
    consumer_id: B::ConsumerId,
}

impl<M: Message, B: Broker> SimpleConsumer<M, B> {
    /// Registers `consumer_id` with the broker and creates its consumer,
    /// with nothing waiting. An identity that is registered already is
    /// refused. A registration that the broker rejects is returned as the
    /// consumer's broker error, with the broker's text.
    pub fn new(broker: &mut B, consumer_id: B::ConsumerId) -> (result: Result<Self, ConsumerError>) where
        B::ConsumerId: Clone,

        requires
            old(broker).wf(),
        ensures
            final(broker).wf(),
            final(broker).dispatched() == old(broker).dispatched(),
            result matches Ok(consumer) ==> consumer.waiting().len() == 0 && cloned(
                consumer_id,
                consumer.identity(),
            ),
            result matches Err(e) ==> e is BrokerError,
            old(broker).admits_consumer(consumer_id) ==> result is Ok,
            old(broker).has_consumer(consumer_id) ==> result is Err,
            result is Ok ==> final(broker).has_consumer(consumer_id),
            forall|other: B::ConsumerId| #[trigger]
                old(broker).has_consumer(other) ==> final(broker).has_consumer(other),
            forall|other: B::ProducerId|
                old(broker).has_producer(other) == #[trigger] final(broker).has_producer(other),
    {
        let kept = consumer_id.clone();
        match broker.register_consumer(consumer_id) {
            Ok(()) => {
                let consumer = SimpleConsumer { inbox: Vec::new(), consumer_id: kept };
                assert(views(consumer.inbox@) =~= Seq::empty());
                Ok(consumer)
            },
            Err(e) => Err(broker_failure(&e)),
        }
    }

    /// The identity the consumer registered with, as a mathematical value.
    pub closed spec fn identity(&self) -> B::ConsumerId {
        self.consumer_id
    }

    /// The identity the consumer registered with.
    pub fn consumer_id(&self) -> (id: &B::ConsumerId)
        ensures
            *id == self.identity(),
    {
        &self.consumer_id
    }

    /// Hands the consumer a message; it waits behind those handed before.
    pub fn deliver(&mut self, message: M)
        ensures
            final(self).waiting() == old(self).waiting().push(message@),
    {
        self.inbox.push(message);
        assert(views(self.inbox@) =~= views(old(self).inbox@).push(message@));
    }
}

impl<M: Message, B: Broker> Consumer for SimpleConsumer<M, B> {
    type Msg = M;

    closed spec fn waiting(&self) -> Seq<M::V> {
        views(self.inbox@)
    }

    /// Takes the oldest waiting message; `Ok(None)` when none waits.
    /// Never fails.
    fn poll(&mut self) -> (result: Result<Option<M>, ConsumerError>)
        ensures
            result is Ok,
    {
        assert(views(self.inbox@).len() == self.inbox@.len());
        if self.inbox.len() == 0 {
            Ok(None)
        } else {
            let message = self.inbox.remove(0);
            assert(views(self.inbox@) =~= views(old(self).inbox@).drop_first());
            Ok(Some(message))
        }
    }

    /// Commits the offset of the last consumed message. There is nothing
    /// to commit to: always succeeds.
    fn commit(&self) -> (result: Result<(), ConsumerError>)
        ensures
            result is Ok,
    {
        Ok(())
    }
}

} // verus!
