use vstd::prelude::*;
use vstd::string::*;

verus! {

/// Error type of the producer side.
#[derive(Debug)]
pub enum ProducerError {
    BrokerError(String),
    SendError(String),
    FlushError(String),
    InternalError(String),
}

impl ProducerError {
    /// The rendered text: the kind's prefix followed by the detail.
    pub open spec fn text(&self) -> Seq<char> {
        match self {
            ProducerError::BrokerError(d) => "Broker error: "@ + d@,
            ProducerError::SendError(d) => "Send error: "@ + d@,
            ProducerError::FlushError(d) => "Flush error: "@ + d@,
            ProducerError::InternalError(d) => "Internal error: "@ + d@,
        }
    }

    /// Renders the error as human-readable text.
    pub fn message(&self) -> (s: String)
        ensures
            s@ == self.text(),
    {
        let (prefix, detail) = match self {
            ProducerError::BrokerError(d) => ("Broker error: ", d),
            ProducerError::SendError(d) => ("Send error: ", d),
            ProducerError::FlushError(d) => ("Flush error: ", d),
            ProducerError::InternalError(d) => ("Internal error: ", d),
        };
        let mut s = String::from_str(prefix);
        s.append(detail.as_str());
        s
    }
}

} // verus!
