//! The configuration of a broker process, as plain values.

use vstd::prelude::*;
use vstd::string::*;

verus! {

/// The whole configuration.
#[derive(Debug)]
pub struct Config {
    pub server: ServerConfig,
    pub log: LogConfig,
    pub broker: BrokerConfig,
    pub storage: StorageConfig,
}

/// Where the broker listens.
#[derive(Debug)]
pub struct ServerConfig {
    pub host: String,
    pub port: u16,
}

/// How much the broker logs: "debug", "info", "warn" or "error".
#[derive(Debug)]
pub struct LogConfig {
    pub level: String,
}

#[derive(Debug)]
pub struct BrokerConfig {
    pub replication_factor: u8,
    pub default_topic_partitions: u8,
}

/// Which storage engine to use ("in_memory" and others), and where it
/// keeps its data.
#[derive(Debug)]
pub struct StorageConfig {
    pub storage_type: String,
    pub path: Option<String>,
}

/// Why a configuration could not be had. Each variant carries the detail.
#[derive(Debug)]
pub enum ConfigError {
    Io(String),
    Parse(String),
    InvalidConfig(String),
}

impl ConfigError {
    /// The rendered text of the error.
    pub open spec fn text(&self) -> Seq<char> {
        match self {
            ConfigError::Io(d) => "I/O error: "@ + d@,
            ConfigError::Parse(d) => "YAML parse error: "@ + d@,
            ConfigError::InvalidConfig(d) => "Invalid configuration: "@ + d@,
        }
    }

    /// Renders the error as human-readable text.
    pub fn message(&self) -> (s: String)
        ensures
            s@ == self.text(),
    {
        let (prefix, detail) = match self {
            ConfigError::Io(d) => ("I/O error: ", d),
            ConfigError::Parse(d) => ("YAML parse error: ", d),
            ConfigError::InvalidConfig(d) => ("Invalid configuration: ", d),
        };
        let mut s = String::from_str(prefix);
        s.append(detail.as_str());
        s
    }
}

} // verus!
