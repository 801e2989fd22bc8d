//! Choosing a storage engine by configuration.

use vstd::prelude::*;
use vstd::string::*;
use crate::errors::storage_error::StorageError;
use crate::in_memory::InMemoryStorage;
use crate::message::Message;
use crate::storage_engine::{LogState, StorageEngine};

verus! {

/// Configuration for the storage engine.
#[derive(Debug)]
pub struct StorageConfig {
    pub storage_type: String,
    pub path: Option<String>,
}

/// The detail of the error for a storage type that is not supported.
pub open spec fn unsupported_text(storage_type: Seq<char>) -> Seq<char> {
    "Unsupported storage type '"@ + storage_type + "'"@
}

/// Creates a storage engine based on the provided configuration: an empty
/// in-memory engine for the storage type `in_memory`, and an
/// `InvalidConfig` error that names the type for every other.
pub fn create_storage_engine<M: Message>(config: &StorageConfig) -> (result: Result<
    InMemoryStorage<M>,
    StorageError,
>)
    ensures
        result is Ok <==> config.storage_type@ == "in_memory"@,
        result matches Ok(engine) ==> engine.wf() && engine.state() == LogState::<M::V>::empty(),
        result matches Err(e) ==> e matches StorageError::InvalidConfig(detail) && detail@
            == unsupported_text(config.storage_type@),
{
    if config.storage_type == String::from_str("in_memory") {
        Ok(InMemoryStorage::new())
    } else {
        let mut detail = String::from_str("Unsupported storage type '");
        detail.append(config.storage_type.as_str());
        detail.append("'");
        Err(StorageError::InvalidConfig(detail))
    }
}

} // verus!
