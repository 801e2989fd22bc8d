use vstd::prelude::*;
use vstd::string::*;
use crate::errors::storage_error::StorageError;
use crate::text::{decimal_digits, push_decimal};

verus! {

/// Error type of the broker. Every operation of the broker yields either a
/// success value or one of these kinds.
#[derive(Debug)]
pub enum BrokerError {
    /// A duplicate identity was registered.
    RegistrationFailed(String),
    /// A consumer's delivery queue rejected a message.
    DispatchFailed(String),
    /// A hook stopped the request or reported an error.
    HookError(String),
    /// The storage engine failed; its error is passed on untouched.
    StorageError(StorageError),
    InternalError(String),
    /// The published key routes to partition `owner`, not to this broker's
    /// partition `partition`.
    OwnershipError { owner: u32, partition: u32 },
    /// The request carried an invalid value (negative offset, unknown topic).
    ValidationFailed(String),
}

/// The text that tells a client which partition owns its key.
pub open spec fn ownership_text(owner: u32, partition: u32) -> Seq<char> {
    "Message belongs to partition "@ + decimal_digits(owner as nat) + " not "@ + decimal_digits(
        partition as nat,
    )
}

/// Renders the ownership error text.
pub fn ownership_message(owner: u32, partition: u32) -> (s: String)
    ensures
        s@ == ownership_text(owner, partition),
{
    let mut s = String::from_str("Message belongs to partition ");
    push_decimal(&mut s, owner as u64);
    s.append(" not ");
    push_decimal(&mut s, partition as u64);
    s
}

/// What the broker makes of a result of the storage engine: a value is
/// passed on, and an error is carried on untouched as the broker's
/// storage error.
pub open spec fn carried<T>(result: Result<T, StorageError>) -> Result<T, BrokerError> {
    match result {
        Ok(value) => Ok(value),
        Err(error) => Err(BrokerError::StorageError(error)),
    }
}

/// Turns a result of the storage engine into a result of the broker.
pub fn storage_outcome<T>(result: Result<T, StorageError>) -> (outcome: Result<T, BrokerError>)
    ensures
        outcome == carried(result),
        result matches Err(error) ==> outcome == Err::<T, BrokerError>(
            BrokerError::StorageError(error),
        ),
{
    match result {
        Ok(value) => Ok(value),
        Err(error) => Err(BrokerError::StorageError(error)),
    }
}

impl BrokerError {
    /// The rendered text of the error.
    pub open spec fn text(&self) -> Seq<char> {
        match self {
            BrokerError::RegistrationFailed(d) => "Registration failed: "@ + d@,
            BrokerError::DispatchFailed(d) => "Dispatch failed: "@ + d@,
            BrokerError::HookError(d) => "Hook error: "@ + d@,
            BrokerError::StorageError(e) => "Storage error: "@ + e.text(),
            BrokerError::InternalError(d) => "Internal error: "@ + d@,
            BrokerError::OwnershipError { owner, partition } => ownership_text(*owner, *partition),
            BrokerError::ValidationFailed(d) => d@,
        }
    }

    /// Renders the error as human-readable text.
    pub fn message(&self) -> (s: String)
        ensures
            s@ == self.text(),
    {
        match self {
            BrokerError::RegistrationFailed(d) => {
                let mut s = String::from_str("Registration failed: ");
                s.append(d.as_str());
                s
            },
            BrokerError::DispatchFailed(d) => {
                let mut s = String::from_str("Dispatch failed: ");
                s.append(d.as_str());
                s
            },
            BrokerError::HookError(d) => {
                let mut s = String::from_str("Hook error: ");
                s.append(d.as_str());
                s
            },
            BrokerError::StorageError(e) => {
                let mut s = String::from_str("Storage error: ");
                let inner = e.message();
                s.append(inner.as_str());
                s
            },
            BrokerError::InternalError(d) => {
                let mut s = String::from_str("Internal error: ");
                s.append(d.as_str());
                s
            },
            BrokerError::OwnershipError { owner, partition } => ownership_message(
                *owner,
                *partition,
            ),
            BrokerError::ValidationFailed(d) => d.clone(),
        }
    }
}

} // verus!
