//! Fresh unique identifiers for messages and clients.

use vstd::prelude::*;

verus! {

/// The length of an identifier: 32 hexadecimal digits in five groups
/// separated by hyphens.
pub const IDENTIFIER_LENGTH: usize = 36;

/// `uuid::Uuid::new_v4`, rendered by the `Display` of `uuid::Uuid`: a random
/// version-4 UUID in its hyphenated lower-case form, which is 36 characters
/// long. Which identifier comes back is left open; every call may return
/// another one. The call panics where the operating system has no random
/// bytes to give.
#[verifier::external_body]
fn random_uuid_text() -> (id: String)
    ensures
        id@.len() == IDENTIFIER_LENGTH,
{
    uuid::Uuid::new_v4().to_string()
}

/// A fresh identifier for a message or a client.
pub fn fresh_identifier() -> (id: String)
    ensures
        id@.len() == IDENTIFIER_LENGTH,
{
    random_uuid_text()
}

} // verus!
