//! A partitioned publish/subscribe message queue: partition routing, an
//! append-only storage engine with write-ahead log and snapshots, consumer
//! offset tracking, bounded lossy fan-out and a request hook pipeline.

pub mod broker;
pub mod broker_state;
pub mod channel;
pub mod cli;
pub mod client;
pub mod clock;
pub mod config;
pub mod errors;
pub mod factory;
pub mod hooks;
pub mod hooks_integration;
pub mod identity;
pub mod in_memory;
pub mod message;
pub mod offsets;
pub mod partitioner;
pub mod protocol;
pub mod request;
pub mod response;
pub mod simple_broker;
pub mod simple_consumer;
pub mod simple_producer;
pub mod storage_engine;
pub mod text;
pub mod topics;
pub mod traits;
