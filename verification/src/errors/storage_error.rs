use vstd::prelude::*;
use vstd::string::*;

verus! {

/// Error type for storage operations. Each variant carries the detail text.
#[derive(Debug)]
pub enum StorageError {
    IoError(String),
    SerializationError(String),
    NotFound(String),
    RocksDbError(String),
    InvalidConfig(String),
    Unknown(String),
}

impl StorageError {
    /// The detail text carried by the error.
    pub open spec fn detail(&self) -> Seq<char> {
        match self {
            StorageError::IoError(d) => d@,
            StorageError::SerializationError(d) => d@,
            StorageError::NotFound(d) => d@,
            StorageError::RocksDbError(d) => d@,
            StorageError::InvalidConfig(d) => d@,
            StorageError::Unknown(d) => d@,
        }
    }

    /// The prefix that names the kind of error in its rendered text.
    pub open spec fn prefix(&self) -> Seq<char> {
        match self {
            StorageError::IoError(_) => "I/O error occurred: "@,
            StorageError::SerializationError(_) => "Serialization error occurred: "@,
            StorageError::NotFound(_) => "Message not found: "@,
            StorageError::RocksDbError(_) => "RocksDB error occurred: "@,
            StorageError::InvalidConfig(_) => "Invalid configuration: "@,
            StorageError::Unknown(_) => "Unknown error: "@,
        }
    }

    /// The rendered text: the kind's prefix followed by the detail.
    pub open spec fn text(&self) -> Seq<char> {
        self.prefix() + self.detail()
    }

    /// Renders the error as human-readable text.
    pub fn message(&self) -> (s: String)
        ensures
            s@ == self.text(),
    {
        let (prefix, detail) = match self {
            StorageError::IoError(d) => ("I/O error occurred: ", d),
            StorageError::SerializationError(d) => ("Serialization error occurred: ", d),
            StorageError::NotFound(d) => ("Message not found: ", d),
            StorageError::RocksDbError(d) => ("RocksDB error occurred: ", d),
            StorageError::InvalidConfig(d) => ("Invalid configuration: ", d),
            StorageError::Unknown(d) => ("Unknown error: ", d),
        };
        let mut s = String::from_str(prefix);
        s.append(detail.as_str());
        s
    }
}

} // verus!
