use rafka::errors::broker_error::BrokerError;
use rafka::errors::consumer_error::ConsumerError;
use rafka::errors::producer_error::ProducerError;
use rafka::hooks::{
    AfterResponseSend, BaseHookResult, BeforeResponseSend, OnRequestExecuted, OnRequestReceived,
};
use rafka::hooks_integration::{
    apply_request_verdict, apply_response_verdict, run_executed_hooks, run_request_hooks,
    BrokerHookError, HookRegistry, HookResultType,
};
use rafka::in_memory::InMemoryStorage;
use rafka::message::StoredMessage;
use rafka::request::Request;
use rafka::response::Response;
use rafka::simple_broker::{SimpleBroker, QUEUE_CAPACITY};
use rafka::simple_consumer::SimpleConsumer;
use rafka::simple_producer::SimpleProducer;
use rafka::storage_engine::StorageEngine;
use rafka::traits::{Broker, Consumer, Producer};

enum Hook {
    Pass,
    Stop,
    Fail(&'static str),
    Body(&'static [u8]),
    Status(u16),
    RequireBody(&'static [u8]),
}

impl OnRequestReceived for Hook {
    type Request = Request;
    type HookResult = HookResultType;

    fn on_request_received(&self, request: &Request) -> HookResultType {
        match self {
            Hook::Pass => BaseHookResult::Continue,
            Hook::Stop => BaseHookResult::StopProcessing,
            Hook::Fail(detail) => {
                BaseHookResult::Error(BrokerHookError { message: String::from(*detail) })
            }
            Hook::Body(body) => {
                BaseHookResult::ModifyRequest(Request::new(Vec::new(), body.to_vec()))
            }
            Hook::Status(code) => {
                BaseHookResult::ModifyResponse(Response::new(*code, Vec::new(), Vec::new()))
            }
            Hook::RequireBody(body) => {
                if request.body == *body {
                    BaseHookResult::Continue
                } else {
                    BaseHookResult::StopProcessing
                }
            }
        }
    }
}

impl OnRequestExecuted for Hook {
    type Request = Request;
    type Response = Response;
    type HookResult = HookResultType;

    fn on_request_executed(&self, _request: &Request, response: &Response) -> HookResultType {
        match self {
            Hook::Pass => BaseHookResult::Continue,
            Hook::Stop => BaseHookResult::StopProcessing,
            Hook::Fail(detail) => {
                BaseHookResult::Error(BrokerHookError { message: String::from(*detail) })
            }
            Hook::Body(body) => {
                BaseHookResult::ModifyRequest(Request::new(Vec::new(), body.to_vec()))
            }
            Hook::Status(code) => BaseHookResult::ModifyResponse(Response::new(
                *code,
                Vec::new(),
                response.body.clone(),
            )),
            Hook::RequireBody(body) => {
                if response.body == *body {
                    BaseHookResult::Continue
                } else {
                    BaseHookResult::StopProcessing
                }
            }
        }
    }
}

impl BeforeResponseSend for Hook {
    type Response = Response;
    type HookResult = HookResultType;

    fn before_response_send(&self, response: &mut Response) -> HookResultType {
        response.status_code = 201;
        BaseHookResult::Continue
    }
}

impl AfterResponseSend for Hook {
    type Response = Response;
    type HookResult = HookResultType;

    fn after_response_send(&self, _response: &Response) -> HookResultType {
        BaseHookResult::Continue
    }
}

type Registry = HookRegistry<Hook, Hook, Hook, Hook>;
type TestBroker = SimpleBroker<InMemoryStorage<StoredMessage>, Hook, Hook, Hook, Hook>;

fn broker_with(received: Vec<Hook>, executed: Vec<Hook>) -> TestBroker {
    let mut registry = Registry::new();
    for hook in received {
        registry.add_on_request_received_hook(hook);
    }
    for hook in executed {
        registry.add_on_request_executed_hook(hook);
    }
    SimpleBroker::new(InMemoryStorage::new(), registry)
}

fn message(offset: i64) -> StoredMessage {
    StoredMessage {
        message_id: format!("id-{}", offset),
        topic: String::from("t"),
        key: String::from("k"),
        payload: vec![offset as u8],
        offset,
        created_at: 5,
    }
}

#[test]
fn request_and_response_keep_their_parts() {
    let headers = vec![(String::from("a"), String::from("b"))];
    let request = Request::new(headers.clone(), vec![1, 2]);
    assert_eq!(request.headers, headers);
    assert_eq!(request.body, vec![1, 2]);
    let response = Response::new(404, headers.clone(), vec![3]);
    assert_eq!(response.status_code, 404);
    assert_eq!(response.headers, headers);
    assert_eq!(response.body, vec![3]);
}

#[test]
fn registry_keeps_hooks_in_order() {
    let mut registry = Registry::new();
    assert!(registry.on_request_received_hooks.is_empty());
    assert!(registry.on_request_executed_hooks.is_empty());
    assert!(registry.before_response_send_hooks.is_empty());
    assert!(registry.after_response_send_hooks.is_empty());
    registry.add_on_request_received_hook(Hook::Stop);
    registry.add_on_request_received_hook(Hook::Pass);
    registry.add_on_request_executed_hook(Hook::Status(1));
    assert!(matches!(registry.on_request_received_hooks[0], Hook::Stop));
    assert!(matches!(registry.on_request_received_hooks[1], Hook::Pass));
    assert_eq!(registry.on_request_executed_hooks.len(), 1);
    assert!(registry.before_response_send_hooks.is_empty());
}

#[test]
fn request_without_hooks_is_echoed() {
    let broker = broker_with(vec![], vec![]);
    let response = broker.handle_request(Request::new(vec![], vec![9, 8, 7])).unwrap();
    assert_eq!(response.status_code, 200);
    assert_eq!(response.body, vec![9, 8, 7]);
    assert_eq!(
        response.headers,
        vec![(String::from("Content-Type"), String::from("application/octet-stream"))]
    );
    let direct = broker.process_request(&Request::new(vec![], vec![])).unwrap();
    assert_eq!(direct.status_code, 200);
    assert!(direct.body.is_empty());
}

#[test]
fn stop_in_received_hooks_aborts_the_request() {
    let broker = broker_with(vec![Hook::Pass, Hook::Stop, Hook::Fail("later")], vec![]);
    let error = broker.handle_request(Request::new(vec![], vec![1])).unwrap_err();
    assert!(matches!(&error, BrokerError::HookError(d) if d == "Processing stopped by hook"));
}

#[test]
fn error_in_received_hooks_carries_the_detail() {
    let broker = broker_with(vec![Hook::Fail("denied"), Hook::Stop], vec![]);
    let error = broker.handle_request(Request::new(vec![], vec![1])).unwrap_err();
    assert_eq!(error.message(), "Hook error: denied");
}

#[test]
fn modified_request_is_what_later_hooks_and_the_handler_see() {
    let broker = broker_with(vec![Hook::Body(b"new"), Hook::RequireBody(b"new")], vec![]);
    let response = broker.handle_request(Request::new(vec![], b"old".to_vec())).unwrap();
    assert_eq!(response.body, b"new");
    let broker = broker_with(vec![Hook::RequireBody(b"new"), Hook::Body(b"new")], vec![]);
    assert!(broker.handle_request(Request::new(vec![], b"old".to_vec())).is_err());
}

#[test]
fn response_verdict_in_received_hooks_is_ignored() {
    let broker = broker_with(vec![Hook::Status(500)], vec![]);
    let response = broker.handle_request(Request::new(vec![], vec![4])).unwrap();
    assert_eq!(response.status_code, 200);
    assert_eq!(response.body, vec![4]);
}

#[test]
fn executed_hooks_replace_or_abort_the_response() {
    let broker = broker_with(vec![], vec![Hook::Status(202), Hook::Body(b"ignored")]);
    let response = broker.handle_request(Request::new(vec![], vec![4])).unwrap();
    assert_eq!(response.status_code, 202);
    assert_eq!(response.body, vec![4]);
    let broker = broker_with(vec![], vec![Hook::Status(202), Hook::Stop, Hook::Status(203)]);
    let error = broker.handle_request(Request::new(vec![], vec![4])).unwrap_err();
    assert_eq!(error.message(), "Hook error: Processing stopped by hook");
    let broker = broker_with(vec![], vec![Hook::Fail("after")]);
    let error = broker.handle_request(Request::new(vec![], vec![4])).unwrap_err();
    assert!(matches!(&error, BrokerError::HookError(d) if d == "after"));
}

#[test]
fn verdicts_are_applied_one_by_one() {
    let current = Request::new(vec![], vec![1]);
    let kept = apply_request_verdict::<Request, Response>(current, BaseHookResult::Continue).unwrap();
    assert_eq!(kept.body, vec![1]);
    let replaced = apply_request_verdict::<Request, Response>(
        kept,
        BaseHookResult::ModifyRequest(Request::new(vec![], vec![2])),
    )
    .unwrap();
    assert_eq!(replaced.body, vec![2]);
    let stopped =
        apply_request_verdict::<Request, Response>(replaced, BaseHookResult::StopProcessing);
    assert_eq!(stopped.unwrap_err().message(), "Hook error: Processing stopped by hook");

    let response = Response::new(200, vec![], vec![]);
    let kept = apply_response_verdict::<Request, Response>(
        response,
        BaseHookResult::ModifyRequest(Request::new(vec![], vec![])),
    )
    .unwrap();
    assert_eq!(kept.status_code, 200);
    let replaced = apply_response_verdict::<Request, Response>(
        kept,
        BaseHookResult::ModifyResponse(Response::new(301, vec![], vec![])),
    )
    .unwrap();
    assert_eq!(replaced.status_code, 301);
    let failed = apply_response_verdict::<Request, Response>(
        replaced,
        BaseHookResult::Error(BrokerHookError { message: String::from("x") }),
    );
    assert_eq!(failed.unwrap_err().message(), "Hook error: x");
}

#[test]
fn pipelines_without_hooks_change_nothing() {
    let hooks: Vec<Hook> = Vec::new();
    let request = run_request_hooks(&hooks, Request::new(vec![], vec![5])).unwrap();
    assert_eq!(request.body, vec![5]);
    let response =
        run_executed_hooks(&hooks, &request, Response::new(7, vec![], vec![6])).unwrap();
    assert_eq!(response.status_code, 7);
    assert_eq!(response.body, vec![6]);
}

#[test]
fn other_hook_points_can_be_implemented() {
    let mut response = Response::new(200, vec![], vec![]);
    assert!(matches!(Hook::Pass.before_response_send(&mut response), BaseHookResult::Continue));
    assert_eq!(response.status_code, 201);
    assert!(matches!(Hook::Pass.after_response_send(&response), BaseHookResult::Continue));
}

#[test]
fn duplicate_producer_is_rejected() {
    let mut broker = broker_with(vec![], vec![]);
    broker.register_producer(String::from("first")).unwrap();
    broker.register_producer(String::from("second")).unwrap();
    let error = broker.register_producer(String::from("first")).unwrap_err();
    assert!(
        matches!(&error, BrokerError::RegistrationFailed(d) if d == "Producer 'first' is already registered")
    );
    assert_eq!(error.message(), "Registration failed: Producer 'first' is already registered");
}

#[test]
fn duplicate_consumer_is_rejected() {
    let mut broker = broker_with(vec![], vec![]);
    broker.register_consumer(String::from("c1")).unwrap();
    let error = broker.register_consumer(String::from("c1")).unwrap_err();
    assert_eq!(error.message(), "Registration failed: Consumer 'c1' is already registered");
    // Producers and consumers are registered apart.
    broker.register_producer(String::from("c1")).unwrap();
}

#[test]
fn dispatch_stores_and_delivers_to_every_consumer() {
    let mut broker = broker_with(vec![], vec![]);
    broker.register_consumer(String::from("a")).unwrap();
    broker.register_consumer(String::from("b")).unwrap();
    broker.dispatch_message(message(0)).unwrap();
    broker.dispatch_message(message(1)).unwrap();
    assert_eq!(broker.storage().latest_offset().unwrap(), 2);
    assert_eq!(broker.storage().get(1).unwrap().message_id, "id-1");
    for consumer in ["a", "b"] {
        assert_eq!(broker.take_delivery(consumer).unwrap().offset, 0);
        assert_eq!(broker.take_delivery(consumer).unwrap().offset, 1);
        assert!(broker.take_delivery(consumer).is_none());
    }
    assert!(broker.take_delivery("nobody").is_none());
}

#[test]
fn dispatch_without_consumers_only_stores() {
    let mut broker = broker_with(vec![], vec![]);
    broker.dispatch_message(message(0)).unwrap();
    assert_eq!(broker.storage().latest_offset().unwrap(), 1);
}

#[test]
fn closed_queue_fails_the_dispatch_but_not_the_others() {
    let mut broker = broker_with(vec![], vec![]);
    for consumer in ["a", "b", "c", "d"] {
        broker.register_consumer(String::from(consumer)).unwrap();
    }
    broker.close_consumer("b");
    broker.close_consumer("d");
    broker.close_consumer("nobody");
    let error = broker.dispatch_message(message(0)).unwrap_err();
    assert!(matches!(
        &error,
        BrokerError::DispatchFailed(d) if d == "Failed to send to consumer 'b': channel closed"
    ));
    assert_eq!(
        error.message(),
        "Dispatch failed: Failed to send to consumer 'b': channel closed"
    );
    assert_eq!(broker.storage().latest_offset().unwrap(), 1);
    assert_eq!(broker.take_delivery("a").unwrap().offset, 0);
    assert_eq!(broker.take_delivery("c").unwrap().offset, 0);
    assert!(broker.take_delivery("b").is_none());
    assert!(broker.take_delivery("d").is_none());
}

#[test]
fn full_queue_rejects_deliveries() {
    let mut broker = broker_with(vec![], vec![]);
    broker.register_consumer(String::from("slow")).unwrap();
    broker.register_consumer(String::from("fast")).unwrap();
    for offset in 0..QUEUE_CAPACITY as i64 {
        broker.dispatch_message(message(offset)).unwrap();
        assert_eq!(broker.take_delivery("fast").unwrap().offset, offset);
    }
    let error = broker.dispatch_message(message(100)).unwrap_err();
    assert!(matches!(
        &error,
        BrokerError::DispatchFailed(d) if d == "Failed to send to consumer 'slow': no available capacity"
    ));
    assert_eq!(broker.take_delivery("fast").unwrap().offset, 100);
    assert_eq!(broker.storage().latest_offset().unwrap(), 101);
    for offset in 0..QUEUE_CAPACITY as i64 {
        assert_eq!(broker.take_delivery("slow").unwrap().offset, offset);
    }
    assert!(broker.take_delivery("slow").is_none());
    broker.dispatch_message(message(101)).unwrap();
    assert_eq!(broker.take_delivery("slow").unwrap().offset, 101);
}

#[test]
fn queue_capacity_is_one_hundred() {
    assert_eq!(QUEUE_CAPACITY, 100);
}

#[test]
fn simple_producer_buffers_until_flush() {
    let mut broker = broker_with(vec![], vec![]);
    broker.register_consumer(String::from("c")).unwrap();
    let mut producer: SimpleProducer<StoredMessage, TestBroker> =
        SimpleProducer::new(&mut broker, String::from("p")).unwrap();
    assert_eq!(producer.producer_id(), "p");
    producer.flush(&mut broker).unwrap();
    producer.send(message(0)).unwrap();
    producer.send(message(1)).unwrap();
    assert_eq!(producer.buffered_count(), 2);
    assert_eq!(broker.storage().latest_offset().unwrap(), 0);
    producer.flush(&mut broker).unwrap();
    assert_eq!(producer.buffered_count(), 0);
    assert_eq!(broker.storage().latest_offset().unwrap(), 2);
    assert_eq!(broker.take_delivery("c").unwrap().offset, 0);
    assert_eq!(broker.take_delivery("c").unwrap().offset, 1);
}

#[test]
fn simple_producer_reports_a_rejected_registration() {
    let mut broker = broker_with(vec![], vec![]);
    let _first: SimpleProducer<StoredMessage, TestBroker> =
        SimpleProducer::new(&mut broker, String::from("p")).unwrap();
    let second: Result<SimpleProducer<StoredMessage, TestBroker>, ProducerError> =
        SimpleProducer::new(&mut broker, String::from("p"));
    match second {
        Err(ProducerError::BrokerError(detail)) => {
            assert_eq!(detail, "Registration failed: Producer 'p' is already registered")
        }
        Err(other) => panic!("unexpected: {:?}", other),
        Ok(_) => panic!("registered twice"),
    }
}

#[test]
fn simple_producer_stops_at_the_first_failed_dispatch() {
    let mut broker = broker_with(vec![], vec![]);
    broker.register_consumer(String::from("c")).unwrap();
    broker.close_consumer("c");
    let mut producer: SimpleProducer<StoredMessage, TestBroker> =
        SimpleProducer::new(&mut broker, String::from("p")).unwrap();
    producer.send(message(0)).unwrap();
    producer.send(message(1)).unwrap();
    let error = producer.flush(&mut broker).unwrap_err();
    assert_eq!(
        error.message(),
        "Broker error: Dispatch failed: Failed to send to consumer 'c': channel closed"
    );
    assert_eq!(producer.buffered_count(), 0);
    assert_eq!(broker.storage().latest_offset().unwrap(), 1);
}

#[test]
fn simple_consumer_polls_in_order() {
    let mut broker = broker_with(vec![], vec![]);
    let mut consumer: SimpleConsumer<StoredMessage, TestBroker> =
        SimpleConsumer::new(&mut broker, String::from("c")).unwrap();
    assert_eq!(consumer.consumer_id(), "c");
    assert!(consumer.poll().unwrap().is_none());
    broker.dispatch_message(message(0)).unwrap();
    broker.dispatch_message(message(1)).unwrap();
    while let Some(delivered) = broker.take_delivery("c") {
        consumer.deliver(delivered);
    }
    assert_eq!(consumer.poll().unwrap().unwrap().offset, 0);
    assert_eq!(consumer.poll().unwrap().unwrap().offset, 1);
    assert!(consumer.poll().unwrap().is_none());
    consumer.commit().unwrap();
}

#[test]
fn simple_consumer_reports_a_rejected_registration() {
    let mut broker = broker_with(vec![], vec![]);
    broker.register_consumer(String::from("c")).unwrap();
    let second: Result<SimpleConsumer<StoredMessage, TestBroker>, ConsumerError> =
        SimpleConsumer::new(&mut broker, String::from("c"));
    match second {
        Err(ConsumerError::BrokerError(detail)) => {
            assert_eq!(detail, "Registration failed: Consumer 'c' is already registered")
        }
        Err(other) => panic!("unexpected: {:?}", other),
        Ok(_) => panic!("registered twice"),
    }
}

#[test]
fn accepted_run_is_flushed_whole() {
    let mut broker = broker_with(vec![], vec![]);
    let mut producer: SimpleProducer<StoredMessage, TestBroker> =
        SimpleProducer::new(&mut broker, String::from("p")).unwrap();
    for offset in 0..5 {
        producer.send(message(offset)).unwrap();
    }
    producer.flush(&mut broker).unwrap();
    assert_eq!(broker.storage().latest_offset().unwrap(), 5);
    let stored = broker.storage().get_range(0, 5).unwrap();
    let offsets: Vec<i64> = stored.iter().map(|m| m.offset).collect();
    assert_eq!(offsets, vec![0, 1, 2, 3, 4]);
    producer.flush(&mut broker).unwrap();
    assert_eq!(broker.storage().latest_offset().unwrap(), 5);
}

#[test]
fn hooks_behind_a_failing_hook_are_not_asked() {
    let broker = broker_with(
        vec![Hook::Pass, Hook::Fail("first"), Hook::Fail("second"), Hook::Stop],
        vec![Hook::Fail("never")],
    );
    let error = broker.handle_request(Request::new(vec![], vec![1])).unwrap_err();
    assert!(matches!(&error, BrokerError::HookError(d) if d == "first"));
}
