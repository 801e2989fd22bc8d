//! A producer that buffers messages and dispatches them to a broker on a
//! flush.

use vstd::prelude::*;
use crate::errors::broker_error::BrokerError;
use crate::errors::producer_error::ProducerError;
use crate::message::{views, Message};
use crate::traits::{Broker, Producer};

verus! {

/// The producer's error for an error of the broker: it carries the
/// broker error's text.
pub fn broker_failure(error: &BrokerError) -> (mapped: ProducerError)
    ensures
        mapped matches ProducerError::BrokerError(detail) && detail@ == error.text(),
{
    ProducerError::BrokerError(error.message())
}

/// A simple producer that sends messages to a broker. Messages are
/// buffered by `send` and dispatched, oldest first, by `flush`.
#[verifier::reject_recursive_types(M)]
#[verifier::reject_recursive_types(B)]
pub struct SimpleProducer<M: Message, B: Broker<Msg = M>> {
    producer_id: B::ProducerId,
    buffer: Vec<M>,
}

impl<M: Message, B: Broker<Msg = M>> SimpleProducer<M, B> {
    /// Registers `producer_id` with the broker and creates its producer,
    /// with nothing buffered. An identity that is registered already is
    /// refused. A registration that the broker rejects is returned as the
    /// producer's broker error, with the broker's text.
    pub fn new(broker: &mut B, producer_id: B::ProducerId) -> (result: Result<Self, ProducerError>) where
        B::ProducerId: Clone,

        requires
            old(broker).wf(),
        ensures
            final(broker).wf(),
            final(broker).dispatched() == old(broker).dispatched(),
            result matches Ok(producer) ==> producer.buffered().len() == 0 && cloned(
                producer_id,
                producer.identity(),
            ),
            result matches Err(e) ==> e is BrokerError,
            old(broker).admits_producer(producer_id) ==> result is Ok,
            old(broker).has_producer(producer_id) ==> result is Err,
            result is Ok ==> final(broker).has_producer(producer_id),
            forall|other: B::ProducerId| #[trigger]
                old(broker).has_producer(other) ==> final(broker).has_producer(other),
            forall|other: B::ConsumerId|
                old(broker).has_consumer(other) == #[trigger] final(broker).has_consumer(other),
            forall|run: Seq<M::V>| #[trigger]
                old(broker).accepts_run(run) ==> final(broker).accepts_run(run),
    {
        let kept = producer_id.clone();
        match broker.register_producer(producer_id) {
            Ok(()) => {
                let producer = SimpleProducer { producer_id: kept, buffer: Vec::new() };
                assert(views(producer.buffer@) =~= Seq::empty());
                Ok(producer)
            },
            Err(e) => Err(broker_failure(&e)),
        }
    }

    /// The identity the producer registered with, as a mathematical value.
    pub closed spec fn identity(&self) -> B::ProducerId {
        self.producer_id
    }

    /// The identity the producer registered with.
    pub fn producer_id(&self) -> (id: &B::ProducerId)
        ensures
            *id == self.identity(),
    {
        &self.producer_id
    }

    /// The number of messages accepted and not yet flushed.
    pub fn buffered_count(&self) -> (count: usize)
        ensures
            count == self.buffered().len(),
    {
        self.buffer.len()
    }
}

impl<M: Message, B: Broker<Msg = M>> Producer for SimpleProducer<M, B> {
    type Msg = M;

    type Target = B;

    closed spec fn buffered(&self) -> Seq<M::V> {
        views(self.buffer@)
    }

    /// Buffers the message. Never fails.
    fn send(&mut self, message: M) -> (result: Result<(), ProducerError>)
        ensures
            result is Ok,
    {
        self.buffer.push(message);
        assert(views(self.buffer@) =~= views(old(self).buffer@).push(message@));
        Ok(())
    }

    /// Dispatches the buffered messages to the broker, oldest first, and
    /// stops at the first one the broker fails on: its error is returned
    /// as the producer's broker error, and the messages behind it are
    /// dropped. With nothing buffered the broker is not touched.
    fn flush(&mut self, broker: &mut B) -> (result: Result<(), ProducerError>)
        ensures
            old(self).buffered().len() == 0 ==> result is Ok && *final(broker) == *old(broker),
            old(broker).accepts_run(old(self).buffered()) ==> result is Ok,
            match result {
                Ok(()) => final(broker).dispatched() == old(broker).dispatched() + old(
                    self,
                ).buffered(),
                Err(e) => e is BrokerError && exists|n: int|
                    0 < n <= old(self).buffered().len() && final(broker).dispatched() == old(
                        broker,
                    ).dispatched() + #[trigger] old(self).buffered().subrange(0, n),
            },
    {
        let mut messages: Vec<M> = Vec::new();
        std::mem::swap(&mut self.buffer, &mut messages);
        assert(views(self.buffer@) =~= Seq::empty());
        let ghost all = views(messages@);
        let ghost mut done: int = 0;
        assert(all.subrange(0, 0) =~= Seq::empty());
        assert(old(broker).dispatched() + all.subrange(0, 0) =~= old(broker).dispatched());
        assert(all.subrange(0, all.len() as int) =~= all);
        while messages.len() > 0
            invariant
                broker.wf(),
                self.buffered().len() == 0,
                all == old(self).buffered(),
                0 <= done <= all.len(),
                views(messages@) == all.subrange(done, all.len() as int),
                broker.dispatched() == old(broker).dispatched() + all.subrange(0, done),
                done == 0 ==> *broker == *old(broker),
                old(broker).accepts_run(all) ==> broker.accepts_run(
                    all.subrange(done, all.len() as int),
                ),
            decreases messages@.len(),
        {
            let ghost before = messages@;
            assert(views(before).len() == before.len());
            let message = messages.remove(0);
            proof {
                assert(message@ == views(before)[0]);
                assert(message@ == all[done]);
                assert(views(messages@) =~= views(before).drop_first());
                assert(views(before).drop_first() =~= all.subrange(done + 1, all.len() as int));
                assert(all.subrange(0, done + 1) =~= all.subrange(0, done).push(all[done]));
                assert((old(broker).dispatched() + all.subrange(0, done)).push(all[done]) =~= old(
                    broker,
                ).dispatched() + all.subrange(0, done + 1));
            }
            let ghost run = all.subrange(done, all.len() as int);
            let ghost taking = broker.accepts_run(run);
            let outcome = broker.dispatch_message(message);
            proof {
                assert(run[0] == message@);
                assert(run.drop_first() =~= all.subrange(done + 1, all.len() as int));
                assert(taking ==> outcome is Ok);
                done = done + 1;
            }
            match outcome {
                Ok(()) => {},
                Err(e) => {
                    return Err(broker_failure(&e));
                },
            }
        }
        proof {
            assert(views(messages@).len() == messages@.len());
            assert(done == all.len());
            assert(all.subrange(0, done) =~= all);
        }
        Ok(())
    }
}

} // verus!
