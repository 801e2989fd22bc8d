//! A basic broker: it keeps the registered producers and consumers, stores
//! each dispatched message and hands it to every consumer's queue, and runs
//! requests through the hook pipeline.

use vstd::prelude::*;
use vstd::string::*;
use crate::errors::broker_error::{storage_outcome, BrokerError};
use crate::errors::storage_error::StorageError;
use crate::hooks::{OnRequestExecuted, OnRequestReceived};
use crate::hooks_integration::{
    fold_request, fold_response, outcome_of, ran_executed_hooks, ran_request_hooks,
    run_executed_hooks, run_request_hooks, HookRegistry, HookResultType,
};
use crate::message::{views, Message};
use crate::request::Request;
use crate::response::Response;
use crate::storage_engine::{LogState, StorageEngine};
use crate::topics::{id_set, ids_distinct, lemma_push_fresh_id, position_of};
use crate::traits::Broker;

verus! {

/// The number of messages a consumer's queue holds before it rejects more.
pub const QUEUE_CAPACITY: usize = 100;

/// The delivery queue of one registered consumer.
pub struct Mailbox<M> {
    pub consumer_id: String,
    /// The messages delivered and not yet taken, oldest first.
    pub queue: Vec<M>,
    /// Whether the consumer still listens. A closed queue rejects deliveries.
    pub open: bool,
}

/// The value of a [`Mailbox`].
pub struct MailboxView<V> {
    pub consumer_id: Seq<char>,
    pub queue: Seq<V>,
    pub open: bool,
}

impl<V> MailboxView<V> {
    /// Whether the queue takes one more message: it is open and not full.
    pub open spec fn accepts(self) -> bool {
        self.open && self.queue.len() < QUEUE_CAPACITY
    }

    /// The queue after a delivery of `message` was tried.
    pub open spec fn offered(self, message: V) -> Self {
        if self.accepts() {
            MailboxView { queue: self.queue.push(message), ..self }
        } else {
            self
        }
    }
}

impl<M: Message> View for Mailbox<M> {
    type V = MailboxView<M::V>;

    open spec fn view(&self) -> MailboxView<M::V> {
        MailboxView { consumer_id: self.consumer_id@, queue: views(self.queue@), open: self.open }
    }
}

/// The state of a simple broker as a mathematical value.
#[verifier::ext_equal]
pub struct SimpleBrokerView<V> {
    pub storage: LogState<V>,
    /// The identities of the registered producers.
    pub producers: Set<Seq<char>>,
    /// The queues of the registered consumers, in order of registration.
    pub consumers: Seq<MailboxView<V>>,
}

impl<V> SimpleBrokerView<V> {
    /// Whether a consumer with the identity `id` is registered.
    pub open spec fn has_consumer(self, id: Seq<char>) -> bool {
        exists|i: int| 0 <= i < self.consumers.len() && #[trigger] self.consumers[i].consumer_id == id
    }

    /// The queues after a delivery of `message` was tried on each of them.
    pub open spec fn offered_all(self, message: V) -> Seq<MailboxView<V>> {
        self.consumers.map_values(|mailbox: MailboxView<V>| mailbox.offered(message))
    }

    /// Whether every consumer's queue takes one more message.
    pub open spec fn all_accept(self) -> bool {
        forall|i: int| 0 <= i < self.consumers.len() ==> (#[trigger] self.consumers[i]).accepts()
    }

    /// Whether every consumer's queue is open and takes `count` more
    /// messages.
    pub open spec fn all_have_room_for(self, count: nat) -> bool {
        forall|i: int|
            0 <= i < self.consumers.len() ==> (#[trigger] self.consumers[i]).open
                && self.consumers[i].queue.len() + count <= QUEUE_CAPACITY
    }

    /// The queues after that of `consumer_id` was closed.
    pub open spec fn with_closed(self, consumer_id: Seq<char>) -> Seq<MailboxView<V>> {
        self.consumers.map_values(
            |mailbox: MailboxView<V>|
                if mailbox.consumer_id == consumer_id {
                    MailboxView { open: false, ..mailbox }
                } else {
                    mailbox
                },
        )
    }
}

/// The detail of the error for a producer that is registered already.
pub open spec fn producer_registered_text(id: Seq<char>) -> Seq<char> {
    "Producer '"@ + id + "' is already registered"@
}

/// The detail of the error for a consumer that is registered already.
pub open spec fn consumer_registered_text(id: Seq<char>) -> Seq<char> {
    "Consumer '"@ + id + "' is already registered"@
}

/// The detail of the error for a consumer whose queue rejected a
/// delivery: it says whether the queue was closed or was open and full.
pub open spec fn dispatch_failed_text(id: Seq<char>, open: bool) -> Seq<char> {
    "Failed to send to consumer '"@ + id + (if open {
        "': no available capacity"@
    } else {
        "': channel closed"@
    })
}

/// The response that echoes `request`: status 200, the one header that
/// gives the content type of a byte stream, and the request's body.
pub open spec fn echo_of(request: Request, response: Response) -> bool {
    &&& response.status_code == 200
    &&& response.body@ == request.body@
    &&& response.headers@.len() == 1
    &&& response.headers@[0].0@ == "Content-Type"@
    &&& response.headers@[0].1@ == "application/octet-stream"@
}

/// What dispatching `message` does, and what it returns.
///
/// The message is stored first; if the storage engine fails, which a
/// reliable engine never does, its error is returned and no queue is
/// touched. Otherwise the message is offered to every consumer's queue,
/// each on its own: a queue that is closed or full rejects it and stays as
/// it was, and does not keep the message from the others. The result is an
/// error that names the first consumer whose queue rejected the message,
/// if any did.
pub open spec fn dispatch_outcome<V>(
    before: SimpleBrokerView<V>,
    message: V,
    after: SimpleBrokerView<V>,
    result: Result<(), BrokerError>,
    reliable: bool,
) -> bool {
    &&& after.producers == before.producers
    &&& match result {
        Err(BrokerError::StorageError(_)) => !reliable && after.consumers == before.consumers,
        Err(BrokerError::DispatchFailed(detail)) => {
            &&& after.storage == before.storage.append(message)
            &&& after.consumers == before.offered_all(message)
            &&& exists|i: int|
                0 <= i < before.consumers.len() && !(#[trigger] before.consumers[i]).accepts()
                    && detail@ == dispatch_failed_text(
                    before.consumers[i].consumer_id,
                    before.consumers[i].open,
                ) && forall|
                    j: int,
                |
                    0 <= j < i ==> (#[trigger] before.consumers[j]).accepts()
        },
        Err(_) => false,
        Ok(()) => {
            &&& after.storage == before.storage.append(message)
            &&& after.consumers == before.offered_all(message)
            &&& before.all_accept()
        },
    }
}

/// `SimpleBroker` is a basic broker implementation. It manages producers
/// and consumers, and handles message routing and storage.
pub struct SimpleBroker<S: StorageEngine, R, X, B, A> {
    storage: S,
    producers: Vec<String>,
    consumers: Vec<Mailbox<S::Msg>>,
    hook_registry: HookRegistry<R, X, B, A>,
    handed: Ghost<Seq<<S::Msg as View>::V>>,
}

impl<S: StorageEngine, R, X, B, A> SimpleBroker<S, R, X, B, A> {
    /// The broker as a mathematical value.
    pub closed spec fn view(&self) -> SimpleBrokerView<<S::Msg as View>::V> {
        SimpleBrokerView {
            storage: self.storage.state(),
            producers: id_set(self.producers@),
            consumers: self.consumers@.map_values(|mailbox: Mailbox<S::Msg>| mailbox@),
        }
    }

    /// The broker's invariant: the storage engine is well formed, and no
    /// identity is registered twice in the same role.
    pub closed spec fn valid(&self) -> bool {
        &&& self.storage.wf()
        &&& ids_distinct(self.producers@)
        &&& forall|i: int, j: int|
            0 <= i < self.consumers@.len() && 0 <= j < self.consumers@.len() && i != j
                ==> #[trigger] self.consumers@[i].consumer_id@ != #[trigger] self.consumers@[j].consumer_id@
    }

    /// The hooks of the broker.
    pub closed spec fn hooks(&self) -> HookRegistry<R, X, B, A> {
        self.hook_registry
    }

    /// The error with which the storage engine's last append that failed
    /// did fail, if any did.
    pub closed spec fn last_storage_failure(&self) -> Option<StorageError> {
        self.storage.last_failure()
    }

    /// Every message that was handed to the broker for dispatch so far.
    pub closed spec fn handed_over(&self) -> Seq<<S::Msg as View>::V> {
        self.handed@
    }

    /// Creates a new instance of `SimpleBroker` on the given storage engine
    /// and with the given hooks. Nobody is registered.
    pub fn new(storage: S, hook_registry: HookRegistry<R, X, B, A>) -> (broker: Self)
        requires
            storage.wf(),
        ensures
            broker.valid(),
            broker.hooks() == hook_registry,
            broker.handed_over() == Seq::<<S::Msg as View>::V>::empty(),
            broker@ == (SimpleBrokerView {
                storage: storage.state(),
                producers: Set::empty(),
                consumers: Seq::empty(),
            }),
    {
        let broker = SimpleBroker {
            storage,
            producers: Vec::new(),
            consumers: Vec::new(),
            hook_registry,
            handed: Ghost(Seq::empty()),
        };
        assert(broker@.producers =~= Set::empty());
        assert(broker@.consumers =~= Seq::empty());
        broker
    }

    /// The storage engine of the broker.
    pub fn storage(&self) -> (storage: &S)
        ensures
            storage.state() == self@.storage,
            storage.last_failure() == self.last_storage_failure(),
            self.valid() ==> storage.wf(),
    {
        &self.storage
    }

    fn find_consumer(&self, consumer_id: &String) -> (found: Option<usize>)
        ensures
            found matches Some(i) ==> i < self.consumers@.len() && self.consumers@[i as int].consumer_id@
                == consumer_id@,
            found is Some <==> self@.has_consumer(consumer_id@),
    {
        let mut i: usize = 0;
        while i < self.consumers.len()
            invariant
                i <= self.consumers.len(),
                forall|j: int| 0 <= j < i ==> #[trigger] self.consumers@[j].consumer_id@ != consumer_id@,
            decreases self.consumers.len() - i,
        {
            if self.consumers[i].consumer_id == *consumer_id {
                assert(self@.consumers[i as int].consumer_id == consumer_id@);
                return Some(i);
            }
            i = i + 1;
        }
        assert forall|k: int| 0 <= k < self@.consumers.len() implies #[trigger] self@.consumers[k].consumer_id
            != consumer_id@ by {
            assert(self.consumers@[k].consumer_id@ != consumer_id@);
        }
        None
    }

    /// Echoes the request: status 200, the content type of a byte stream,
    /// and the request's body.
    pub fn process_request(&self, request: &Request) -> (result: Result<Response, BrokerError>)
        ensures
            result matches Ok(response) && echo_of(*request, response),
    {
        let mut headers: Vec<(String, String)> = Vec::new();
        headers.push(
            (String::from_str("Content-Type"), String::from_str("application/octet-stream")),
        );
        Ok(Response::new(200, headers, request.body.clone()))
    }

    /// Closes the queue of `consumer_id`: it rejects deliveries from now
    /// on. Does nothing if no such consumer is registered.
    pub fn close_consumer(&mut self, consumer_id: &str)
        requires
            old(self).valid(),
        ensures
            final(self).valid(),
            final(self).hooks() == old(self).hooks(),
            final(self).handed_over() == old(self).handed_over(),
            final(self)@.storage == old(self)@.storage,
            final(self)@.producers == old(self)@.producers,
            final(self)@.consumers == old(self)@.with_closed(consumer_id@),
    {
        let owned = String::from_str(consumer_id);
        match self.find_consumer(&owned) {
            Some(i) => {
                let mut mailbox = self.take_mailbox(i);
                mailbox.open = false;
                self.put_mailbox(i, mailbox);
                assert forall|a: int| 0 <= a < self.consumers@.len() implies #[trigger] self.consumers@[a].consumer_id@
                    == old(self).consumers@[a].consumer_id@ by {}
            },
            None => {},
        }
        assert(self@.consumers =~= old(self)@.with_closed(consumer_id@));
    }

    /// Takes the mailbox at `i` out, leaving an empty closed one of the
    /// same consumer in its place.
    fn take_mailbox(&mut self, i: usize) -> (mailbox: Mailbox<S::Msg>)
        requires
            i < old(self).consumers@.len(),
        ensures
            mailbox == old(self).consumers@[i as int],
            final(self).consumers@.len() == old(self).consumers@.len(),
            forall|j: int|
                0 <= j < old(self).consumers@.len() && j != i ==> final(self).consumers@[j] == old(
                    self,
                ).consumers@[j],
            final(self).consumers@[i as int].consumer_id@ == mailbox.consumer_id@,
            final(self).storage == old(self).storage,
            final(self).producers == old(self).producers,
            final(self).hook_registry == old(self).hook_registry,
            final(self).handed == old(self).handed,
    {
        let stand_in = Mailbox {
            consumer_id: self.consumers[i].consumer_id.clone(),
            queue: Vec::new(),
            open: false,
        };
        self.consumers.push(stand_in);
        self.consumers.swap_remove(i)
    }

    fn put_mailbox(&mut self, i: usize, mailbox: Mailbox<S::Msg>)
        requires
            i < old(self).consumers@.len(),
        ensures
            final(self).consumers@ == old(self).consumers@.update(i as int, mailbox),
            final(self).storage == old(self).storage,
            final(self).producers == old(self).producers,
            final(self).hook_registry == old(self).hook_registry,
            final(self).handed == old(self).handed,
    {
        self.consumers.push(mailbox);
        let _ = self.consumers.swap_remove(i);
        assert(self.consumers@ =~= old(self).consumers@.update(i as int, mailbox));
    }

    /// Takes the oldest message out of the queue of `consumer_id`; `None`
    /// when the queue is empty or no such consumer is registered.
    pub fn take_delivery(&mut self, consumer_id: &str) -> (delivered: Option<S::Msg>)
        requires
            old(self).valid(),
        ensures
            final(self).valid(),
            final(self).hooks() == old(self).hooks(),
            final(self).handed_over() == old(self).handed_over(),
            final(self)@.storage == old(self)@.storage,
            final(self)@.producers == old(self)@.producers,
            final(self)@.consumers.len() == old(self)@.consumers.len(),
            forall|i: int|
                0 <= i < old(self)@.consumers.len() ==> #[trigger] final(self)@.consumers[i] == (if old(
                    self,
                )@.consumers[i].consumer_id == consumer_id@ && old(self)@.consumers[i].queue.len()
                    > 0 {
                    MailboxView {
                        queue: old(self)@.consumers[i].queue.drop_first(),
                        ..old(self)@.consumers[i]
                    }
                } else {
                    old(self)@.consumers[i]
                }),
            match delivered {
                Some(message) => exists|i: int|
                    0 <= i < old(self)@.consumers.len() && (#[trigger] old(self)@.consumers[i]).consumer_id
                        == consumer_id@ && old(self)@.consumers[i].queue.len() > 0 && message@ == old(
                        self,
                    )@.consumers[i].queue[0],
                None => forall|i: int|
                    0 <= i < old(self)@.consumers.len() && (#[trigger] old(self)@.consumers[i]).consumer_id
                        == consumer_id@ ==> old(self)@.consumers[i].queue.len() == 0,
            },
    {
        let owned = String::from_str(consumer_id);
        match self.find_consumer(&owned) {
            Some(i) => {
                if self.consumers[i].queue.len() == 0 {
                    assert forall|k: int|
                        0 <= k < old(self)@.consumers.len() && (#[trigger] old(self)@.consumers[k]).consumer_id
                            == consumer_id@ implies old(self)@.consumers[k].queue.len() == 0 by {
                        assert(self.consumers@[k].consumer_id@ == self.consumers@[i as int].consumer_id@);
                    }
                    return None;
                }
                let mut mailbox = self.take_mailbox(i);
                let ghost before = mailbox.queue@;
                let message = mailbox.queue.remove(0);
                assert(views(mailbox.queue@) =~= views(before).drop_first());
                self.put_mailbox(i, mailbox);
                proof {
                    assert forall|a: int| 0 <= a < self.consumers@.len() implies #[trigger] self.consumers@[a].consumer_id@
                        == old(self).consumers@[a].consumer_id@ by {}
                    assert(old(self)@.consumers[i as int].queue[0] == message@);
                    assert forall|k: int| 0 <= k < old(self)@.consumers.len() implies #[trigger] self@.consumers[k]
                        == (if old(self)@.consumers[k].consumer_id == consumer_id@ && old(
                        self,
                    )@.consumers[k].queue.len() > 0 {
                        MailboxView {
                            queue: old(self)@.consumers[k].queue.drop_first(),
                            ..old(self)@.consumers[k]
                        }
                    } else {
                        old(self)@.consumers[k]
                    }) by {
                        if k != i {
                            assert(old(self).consumers@[k].consumer_id@ != old(self).consumers@[i as int].consumer_id@);
                        }
                    }
                }
                Some(message)
            },
            None => {
                assert forall|k: int|
                    0 <= k < old(self)@.consumers.len() implies (#[trigger] old(self)@.consumers[k]).consumer_id
                    != consumer_id@ by {}
                None
            },
        }
    }
}

impl<S: StorageEngine, R, X, B, A> Broker for SimpleBroker<S, R, X, B, A> {
    type ProducerId = String;

    type ConsumerId = String;

    type Msg = S::Msg;

    open spec fn wf(&self) -> bool {
        self.valid()
    }

    open spec fn dispatched(&self) -> Seq<<S::Msg as View>::V> {
        self.handed_over()
    }

    open spec fn has_producer(&self, producer_id: String) -> bool {
        self@.producers.contains(producer_id@)
    }

    open spec fn has_consumer(&self, consumer_id: String) -> bool {
        self@.has_consumer(consumer_id@)
    }

    /// A producer is registered unless its identity is taken.
    open spec fn admits_producer(&self, producer_id: String) -> bool {
        !self@.producers.contains(producer_id@)
    }

    /// A consumer is registered unless its identity is taken.
    open spec fn admits_consumer(&self, consumer_id: String) -> bool {
        !self@.has_consumer(consumer_id@)
    }

    /// A run of messages is sure to be taken when the storage engine is
    /// reliable and every consumer's queue is open and has room for all of
    /// them.
    open spec fn accepts_run(&self, messages: Seq<<S::Msg as View>::V>) -> bool {
        messages.len() == 0 || (S::reliable() && self@.all_have_room_for(messages.len()))
    }

    /// Registers a new producer with the broker; an identity that is
    /// registered already is rejected and nothing changes.
    fn register_producer(&mut self, producer_id: String) -> (result: Result<(), BrokerError>)
        ensures
            final(self).hooks() == old(self).hooks(),
            final(self).handed_over() == old(self).handed_over(),
            if old(self)@.producers.contains(producer_id@) {
                &&& final(self)@ == old(self)@
                &&& result matches Err(BrokerError::RegistrationFailed(detail))
                &&& detail@ == producer_registered_text(producer_id@)
            } else {
                &&& final(self)@ == (SimpleBrokerView {
                    producers: old(self)@.producers.insert(producer_id@),
                    ..old(self)@
                })
                &&& result is Ok
            },
    {
        if position_of(&self.producers, &producer_id).is_some() {
            let mut detail = String::from_str("Producer '");
            detail.append(producer_id.as_str());
            detail.append("' is already registered");
            return Err(BrokerError::RegistrationFailed(detail));
        }
        proof {
            lemma_push_fresh_id(self.producers@, producer_id);
        }
        self.producers.push(producer_id);
        assert(self@.consumers == old(self)@.consumers);
        Ok(())
    }

    /// Registers a new consumer with the broker and opens an empty queue
    /// for it; an identity that is registered already is rejected and
    /// nothing changes.
    fn register_consumer(&mut self, consumer_id: String) -> (result: Result<(), BrokerError>)
        ensures
            final(self).hooks() == old(self).hooks(),
            final(self).handed_over() == old(self).handed_over(),
            if old(self)@.has_consumer(consumer_id@) {
                &&& final(self)@ == old(self)@
                &&& result matches Err(BrokerError::RegistrationFailed(detail))
                &&& detail@ == consumer_registered_text(consumer_id@)
            } else {
                &&& final(self)@ == (SimpleBrokerView {
                    consumers: old(self)@.consumers.push(
                        MailboxView { consumer_id: consumer_id@, queue: Seq::empty(), open: true },
                    ),
                    ..old(self)@
                })
                &&& result is Ok
            },
    {
        if self.find_consumer(&consumer_id).is_some() {
            let mut detail = String::from_str("Consumer '");
            detail.append(consumer_id.as_str());
            detail.append("' is already registered");
            return Err(BrokerError::RegistrationFailed(detail));
        }
        let mailbox = Mailbox { consumer_id, queue: Vec::new(), open: true };
        assert(views(mailbox.queue@) =~= Seq::empty());
        self.consumers.push(mailbox);
        proof {
            assert(self@.consumers =~= old(self)@.consumers.push(
                MailboxView { consumer_id: consumer_id@, queue: Seq::empty(), open: true },
            ));
            assert forall|i: int, j: int|
                0 <= i < self.consumers@.len() && 0 <= j < self.consumers@.len() && i
                    != j implies #[trigger] self.consumers@[i].consumer_id@
                != #[trigger] self.consumers@[j].consumer_id@ by {
                if i < old(self).consumers@.len() {
                    assert(old(self)@.consumers[i].consumer_id == old(self).consumers@[i].consumer_id@);
                }
                if j < old(self).consumers@.len() {
                    assert(old(self)@.consumers[j].consumer_id == old(self).consumers@[j].consumer_id@);
                }
            }
            let last = old(self)@.consumers.len() as int;
            assert(self@.consumers[last].consumer_id == consumer_id@);
            assert forall|other: String| #[trigger]
                old(self).has_consumer(other) implies self.has_consumer(other) by {
                let k = choose|k: int|
                    0 <= k < old(self)@.consumers.len() && #[trigger] old(self)@.consumers[k].consumer_id
                        == other@;
                assert(self@.consumers[k].consumer_id == other@);
            }
        }
        Ok(())
    }

    /// Stores the message using the storage engine, then offers it to the
    /// queue of every registered consumer.
    fn dispatch_message(&mut self, message: S::Msg) -> (result: Result<(), BrokerError>)
        ensures
            final(self).hooks() == old(self).hooks(),
            dispatch_outcome(old(self)@, message@, final(self)@, result, S::reliable()),
            result matches Err(BrokerError::StorageError(error)) ==> final(self).last_storage_failure()
                == Some(error),
    {
        proof {
            self.handed@ = self.handed@.push(message@);
        }
        let copy = message.duplicate();
        match storage_outcome(self.storage.append(copy)) {
            Ok(()) => {},
            Err(e) => {
                return Err(e);
            },
        }
        let ghost stored = self@;
        let mut failure: Option<BrokerError> = None;
        let ghost mut failed_at: int = -1;
        let mut i: usize = 0;
        while i < self.consumers.len()
            invariant
                i <= self.consumers@.len(),
                self.valid(),
                self.hooks() == old(self).hooks(),
                self.handed_over() == old(self).handed_over().push(message@),
                self@.storage == stored.storage,
                self@.producers == stored.producers,
                self@.consumers.len() == stored.consumers.len(),
                forall|j: int| 0 <= j < i ==> #[trigger] self@.consumers[j] == stored.consumers[j].offered(message@),
                forall|j: int|
                    i <= j < stored.consumers.len() ==> #[trigger] self@.consumers[j] == stored.consumers[j],
                failure is None ==> forall|j: int| 0 <= j < i ==> (#[trigger] stored.consumers[j]).accepts(),
                failure matches Some(e) ==> 0 <= failed_at < i && !stored.consumers[failed_at].accepts()
                    && (e matches BrokerError::DispatchFailed(detail) && detail@ == dispatch_failed_text(
                    stored.consumers[failed_at].consumer_id,
                    stored.consumers[failed_at].open,
                )) && forall|j: int| 0 <= j < failed_at ==> (#[trigger] stored.consumers[j]).accepts(),
            decreases self.consumers@.len() - i,
        {
            let ghost at_start = self@;
            proof {
                assert(at_start.consumers[i as int] == self.consumers@[i as int]@);
                assert(at_start.consumers[i as int] == stored.consumers[i as int]);
                assert(views(self.consumers@[i as int].queue@).len() == self.consumers@[i as int].queue@.len());
            }
            if self.consumers[i].open && self.consumers[i].queue.len() < QUEUE_CAPACITY {
                let mut mailbox = self.take_mailbox(i);
                let ghost before = mailbox.queue@;
                mailbox.queue.push(message.duplicate());
                assert(views(mailbox.queue@) =~= views(before).push(message@));
                self.put_mailbox(i, mailbox);
                proof {
                    assert(self@.consumers[i as int] == stored.consumers[i as int].offered(message@));
                    assert forall|j: int| 0 <= j < self@.consumers.len() && j != i implies #[trigger] self@.consumers[j]
                        == at_start.consumers[j] by {}
                    assert forall|a: int, b: int|
                        0 <= a < self.consumers@.len() && 0 <= b < self.consumers@.len() && a
                            != b implies #[trigger] self.consumers@[a].consumer_id@
                        != #[trigger] self.consumers@[b].consumer_id@ by {
                        assert(self@.consumers[a].consumer_id == at_start.consumers[a].consumer_id);
                        assert(self@.consumers[b].consumer_id == at_start.consumers[b].consumer_id);
                    }
                }
            } else {
                if failure.is_none() {
                    let mut detail = String::from_str("Failed to send to consumer '");
                    detail.append(self.consumers[i].consumer_id.as_str());
                    if self.consumers[i].open {
                        detail.append("': no available capacity");
                    } else {
                        detail.append("': channel closed");
                    }
                    failure = Some(BrokerError::DispatchFailed(detail));
                    proof {
                        failed_at = i as int;
                    }
                }
            }
            i = i + 1;
        }
        assert(self@.consumers =~= stored.offered_all(message@));
        assert(stored.consumers == old(self)@.consumers);
        proof {
            assert forall|run: Seq<<S::Msg as View>::V>|
                run.len() > 0 && run[0] == message@ && #[trigger] old(self).accepts_run(
                    run,
                ) implies failure is None && self.accepts_run(run.drop_first()) by {
                assert forall|j: int| 0 <= j < stored.consumers.len() implies (
                #[trigger] stored.consumers[j]).accepts() by {
                    assert(old(self)@.consumers[j].open);
                }
                assert forall|j: int| 0 <= j < self@.consumers.len() implies (
                #[trigger] self@.consumers[j]).open && self@.consumers[j].queue.len()
                    + run.drop_first().len() <= QUEUE_CAPACITY by {
                    assert(old(self)@.consumers[j].open);
                    assert(self@.consumers[j] == stored.consumers[j].offered(message@));
                }
            }
        }
        match failure {
            Some(e) => Err(e),
            None => Ok(()),
        }
    }
}

/// What a request gets when the request-received hooks returned
/// `received` and the request-executed hooks returned `executed`: the
/// error of the first hook that aborted, or `response`, the echo of the
/// request that the request-received hooks let through, as the
/// request-executed hooks left it.
pub open spec fn exchange_outcome<R, X>(
    received_hooks: Seq<R>,
    executed_hooks: Seq<X>,
    received: Seq<HookResultType>,
    executed: Seq<HookResultType>,
    request: Request,
    response: Response,
    result: Result<Response, BrokerError>,
) -> bool where
    R: OnRequestReceived<Request = Request, HookResult = HookResultType>,
    X: OnRequestExecuted<Request = Request, Response = Response, HookResult = HookResultType>,
 {
    &&& ran_request_hooks(received_hooks, request, received)
    &&& match fold_request(received, request) {
        Err(detail) => result matches Err(BrokerError::HookError(d)) && d@ == detail,
        Ok(admitted) => {
            &&& echo_of(admitted, response)
            &&& ran_executed_hooks(executed_hooks, admitted, response, executed)
            &&& result matches Err(e) ==> e is HookError
            &&& outcome_of(result) == fold_response(executed, response)
        },
    }
}

impl<S, R, X, B, A> SimpleBroker<S, R, X, B, A> where
    S: StorageEngine,
    R: OnRequestReceived<Request = Request, HookResult = HookResultType>,
    X: OnRequestExecuted<Request = Request, Response = Response, HookResult = HookResultType>,
 {
    /// Handles an incoming request: runs the request-received hooks,
    /// processes the request they let through, and runs the
    /// request-executed hooks on the response. The broker itself does not
    /// change.
    pub fn handle_request(&self, request: Request) -> (result: Result<Response, BrokerError>)
        ensures
            exists|
                received: Seq<HookResultType>,
                executed: Seq<HookResultType>,
                response: Response,
            | #[trigger]
                exchange_outcome(
                    self.hooks().on_request_received_hooks@,
                    self.hooks().on_request_executed_hooks@,
                    received,
                    executed,
                    request,
                    response,
                    result,
                ),
    {
        let admitted = run_request_hooks(&self.hook_registry.on_request_received_hooks, request);
        let ghost received = choose|verdicts: Seq<HookResultType>| #[trigger]
            ran_request_hooks(self.hook_registry.on_request_received_hooks@, request, verdicts)
                && outcome_of(admitted) == fold_request(verdicts, request);
        let current = match admitted {
            Ok(current) => current,
            Err(e) => {
                proof {
                    let unused: Response = arbitrary();
                    assert(exchange_outcome(
                        self.hooks().on_request_received_hooks@,
                        self.hooks().on_request_executed_hooks@,
                        received,
                        Seq::empty(),
                        request,
                        unused,
                        Err::<Response, BrokerError>(e),
                    ));
                }
                return Err(e);
            },
        };
        let response = match self.process_request(&current) {
            Ok(response) => response,
            Err(e) => {
                return Err(e);
            },
        };
        let result = run_executed_hooks(
            &self.hook_registry.on_request_executed_hooks,
            &current,
            response,
        );
        proof {
            let executed = choose|verdicts: Seq<HookResultType>| #[trigger]
                ran_executed_hooks(
                    self.hook_registry.on_request_executed_hooks@,
                    current,
                    response,
                    verdicts,
                ) && outcome_of(result) == fold_response(verdicts, response);
            assert(exchange_outcome(
                self.hooks().on_request_received_hooks@,
                self.hooks().on_request_executed_hooks@,
                received,
                executed,
                request,
                response,
                result,
            ));
        }
        result
    }
}

} // verus!
