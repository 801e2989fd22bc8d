use vstd::prelude::*;
use vstd::string::*;

verus! {

/// Error type of the consumer side.
#[derive(Debug)]
pub enum ConsumerError {
    BrokerError(String),
    ReceiveError(String),
    CommitError(String),
}

impl ConsumerError {
    /// The rendered text: the kind's prefix followed by the detail.
    pub open spec fn text(&self) -> Seq<char> {
        match self {
            ConsumerError::BrokerError(d) => "Broker error: "@ + d@,
            ConsumerError::ReceiveError(d) => "Receive error: "@ + d@,
            ConsumerError::CommitError(d) => "Commit error: "@ + d@,
        }
    }

    /// Renders the error as human-readable text.
    pub fn message(&self) -> (s: String)
        ensures
            s@ == self.text(),
    {
        let (prefix, detail) = match self {
            ConsumerError::BrokerError(d) => ("Broker error: ", d),
            ConsumerError::ReceiveError(d) => ("Receive error: ", d),
            ConsumerError::CommitError(d) => ("Commit error: ", d),
        };
        let mut s = String::from_str(prefix);
        s.append(detail.as_str());
        s
    }
}

} // verus!
