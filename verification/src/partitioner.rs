//! Deterministic mapping from message keys to partitions.

use vstd::prelude::*;
use vstd::string::*;

verus! {

/// Sum of the byte values of `bytes`, as a mathematical integer.
pub open spec fn byte_sum(bytes: Seq<u8>) -> nat
    decreases bytes.len(),
{
    if bytes.len() == 0 {
        0
    } else {
        byte_sum(bytes.drop_last()) + bytes.last() as nat
    }
}

/// The hash of a key given as bytes: the sum of the bytes, wrapped to 32 bits.
pub open spec fn hash_of_bytes(bytes: Seq<u8>) -> u32 {
    (byte_sum(bytes) % 0x1_0000_0000) as u32
}

/// The hash of a key: the hash of its UTF-8 bytes.
pub open spec fn hash_of(key: Seq<char>) -> u32 {
    hash_of_bytes(vstd::utf8::encode_utf8(key))
}

/// The partition that owns `key` in a cluster of `total_partitions`.
pub open spec fn partition_of(key: Seq<char>, total_partitions: u32) -> u32
    recommends
        total_partitions > 0,
{
    (hash_of(key) % total_partitions) as u32
}

/// Computes the hash of a key given as bytes.
pub fn hash_bytes(bytes: &[u8]) -> (hash: u32)
    ensures
        hash == hash_of_bytes(bytes@),
{
    let mut acc: u64 = 0;
    let mut i: usize = 0;
    while i < bytes.len()
        invariant
            i <= bytes.len(),
            acc < 0x1_0000_0000,
            acc == byte_sum(bytes@.subrange(0, i as int)) % 0x1_0000_0000,
        decreases bytes.len() - i,
    {
        let ghost before = bytes@.subrange(0, i as int);
        let ghost after = bytes@.subrange(0, i as int + 1);
        assert(after.drop_last() =~= before);
        assert(after.last() == bytes@[i as int]);
        assert((byte_sum(before) + bytes@[i as int] as nat) % 0x1_0000_0000 == (byte_sum(before)
            % 0x1_0000_0000 + bytes@[i as int] as nat) % 0x1_0000_0000) by {
            vstd::arithmetic::div_mod::lemma_add_mod_noop(
                byte_sum(before) as int,
                bytes@[i as int] as int,
                0x1_0000_0000,
            );
            vstd::arithmetic::div_mod::lemma_small_mod(bytes@[i as int] as nat, 0x1_0000_0000);
        }
        acc = (acc + bytes[i] as u64) % 0x1_0000_0000;
        i = i + 1;
    }
    assert(bytes@.subrange(0, i as int) =~= bytes@);
    acc as u32
}

/// Computes the hash of a key.
pub fn hash_key(key: &str) -> (hash: u32)
    ensures
        hash == hash_of(key@),
{
    hash_bytes(key.as_bytes())
}

/// The routing rule of one broker: which partition it is, out of how many.
#[derive(Clone, Copy, Debug)]
pub struct Partitioner {
    pub partition_id: u32,
    pub total_partitions: u32,
}

impl Partitioner {
    /// A partitioner is usable when the cluster has at least one partition
    /// and this broker's partition is one of them.
    pub open spec fn wf(&self) -> bool {
        self.partition_id < self.total_partitions
    }

    /// Creates the routing rule of partition `partition_id` out of
    /// `total_partitions`; `None` unless `partition_id < total_partitions`.
    pub fn new(partition_id: u32, total_partitions: u32) -> (p: Option<Partitioner>)
        ensures
            p is Some <==> partition_id < total_partitions,
            p matches Some(q) ==> q.partition_id == partition_id && q.total_partitions
                == total_partitions && q.wf(),
    {
        if partition_id < total_partitions {
            Some(Partitioner { partition_id, total_partitions })
        } else {
            None
        }
    }

    /// The partition that owns `key`.
    pub fn partition_for(&self, key: &str) -> (partition: u32)
        requires
            self.total_partitions > 0,
        ensures
            partition == partition_of(key@, self.total_partitions),
            partition < self.total_partitions,
    {
        hash_key(key) % self.total_partitions
    }

    /// Whether this broker's partition owns `key`.
    pub fn owns(&self, key: &str) -> (owned: bool)
        requires
            self.total_partitions > 0,
        ensures
            owned <==> partition_of(key@, self.total_partitions) == self.partition_id,
    {
        self.partition_for(key) == self.partition_id
    }
}

/// Routing is a function of the key and the number of partitions alone: two
/// brokers configured with the same number of partitions route every key to
/// the same partition, whichever partition each of them is, and exactly one
/// partition of the cluster owns the key.
pub proof fn lemma_routing_is_deterministic(a: Partitioner, b: Partitioner, key: Seq<char>)
    requires
        a.total_partitions > 0,
        a.total_partitions == b.total_partitions,
    ensures
        partition_of(key, a.total_partitions) == partition_of(key, b.total_partitions),
        partition_of(key, a.total_partitions) < a.total_partitions,
        a.partition_id != b.partition_id ==> !(partition_of(key, a.total_partitions)
            == a.partition_id && partition_of(key, b.total_partitions) == b.partition_id),
{
}

} // verus!
