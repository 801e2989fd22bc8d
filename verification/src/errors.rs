//! Error types of the storage engine, the broker and the client helpers.

pub mod broker_error;
pub mod consumer_error;
pub mod producer_error;
pub mod storage_error;
