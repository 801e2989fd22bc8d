//! The commands of the command line, as plain values.

use vstd::prelude::*;

verus! {

/// The parsed command line.
#[derive(Debug)]
pub struct CLI {
    pub command: Commands,
}

/// What the process is asked to run.
#[derive(Debug)]
pub enum Commands {
    /// Start the message broker
    Broker { port: u16, partition: u32, total_partition: u32, retention_secs: u64 },
    /// Start a consumer for the message broker
    Consumer { port: u16, partition: u32 },
    /// Produces messages for a list of brokers
    Producer { brokers: Vec<String>, key: String, topic: String, message: String },
}

/// Whether a broker command names a partition of its cluster.
pub open spec fn valid_partition(partition: u32, total_partition: u32) -> bool {
    partition < total_partition
}

impl Commands {
    /// Whether the command can be carried out: a broker must be given a
    /// partition below the number of partitions, and a producer at least
    /// one broker to publish to.
    pub open spec fn valid(&self) -> bool {
        match self {
            Commands::Broker { partition, total_partition, .. } => valid_partition(
                *partition,
                *total_partition,
            ),
            Commands::Consumer { .. } => true,
            Commands::Producer { brokers, .. } => brokers@.len() > 0,
        }
    }

    /// Checks that the command can be carried out.
    pub fn is_valid(&self) -> (valid: bool)
        ensures
            valid == self.valid(),
    {
        match self {
            Commands::Broker { partition, total_partition, .. } => *partition < *total_partition,
            Commands::Consumer { .. } => true,
            Commands::Producer { brokers, .. } => brokers.len() > 0,
        }
    }
}

} // verus!
