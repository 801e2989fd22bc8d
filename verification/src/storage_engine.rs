//! The storage engine interface: an append-only log with a write-ahead log
//! and a snapshot, and the mathematical model its operations are stated over.

use vstd::prelude::*;
use crate::errors::storage_error::StorageError;
use crate::message::{views, Message};

verus! {

/// The state of a storage engine: the log, the last snapshot, and the
/// write-ahead log of what was appended since that snapshot.
#[verifier::ext_equal]
pub struct LogState<V> {
    pub log: Seq<V>,
    pub snapshot: Seq<V>,
    pub wal: Seq<V>,
}

impl<V> LogState<V> {
    /// The state of a new engine: nothing stored.
    pub open spec fn empty() -> Self {
        LogState { log: Seq::empty(), snapshot: Seq::empty(), wal: Seq::empty() }
    }

    /// The state after appending `message`: it is recorded in the
    /// write-ahead log and at the end of the log.
    pub open spec fn append(self, message: V) -> Self {
        LogState { log: self.log.push(message), snapshot: self.snapshot, wal: self.wal.push(message) }
    }

    /// The state after a snapshot: the snapshot is the current log and the
    /// write-ahead log is empty.
    pub open spec fn take_snapshot(self) -> Self {
        LogState { log: self.log, snapshot: self.log, wal: Seq::empty() }
    }

    /// The state after recovery: the log is the snapshot followed by the
    /// write-ahead log; neither of the two changes.
    pub open spec fn recover(self) -> Self {
        LogState { log: self.snapshot + self.wal, snapshot: self.snapshot, wal: self.wal }
    }

    /// The log holds exactly what recovery would rebuild.
    pub open spec fn consistent(self) -> bool {
        self.log == self.snapshot + self.wal
    }

    /// The number of messages in the log, which is the next free offset.
    pub open spec fn latest_offset(self) -> nat {
        self.log.len()
    }

    /// The message at `offset`, if the log is that long.
    pub open spec fn get(self, offset: int) -> Option<V> {
        if 0 <= offset < self.log.len() {
            Some(self.log[offset])
        } else {
            None
        }
    }

    /// The messages from `start` (inclusive) to `end` (exclusive), with `end`
    /// clamped to the length of the log; empty when `start` is not below both
    /// the length and `end`.
    pub open spec fn range(self, start: int, end: int) -> Seq<V> {
        let stop = if end < self.log.len() {
            end
        } else {
            self.log.len() as int
        };
        if 0 <= start < stop {
            self.log.subrange(start, stop)
        } else {
            Seq::empty()
        }
    }
}

/// The text of the error for an offset beyond the log.
pub open spec fn not_found_text(offset: u64) -> Seq<char> {
    "No message at offset "@ + crate::text::decimal_digits(offset as nat)
}

/// An append-only message log with snapshot and recovery.
///
/// Every operation that reports success has had exactly the effect that
/// [`LogState`] describes. An engine may fail for reasons of its own (a disk,
/// a codec) unless it declares itself reliable; what a failed call leaves
/// behind is not stated here.
pub trait StorageEngine {
    type Msg: Message;

    /// The engine's state, as a mathematical value.
    spec fn state(&self) -> LogState<<Self::Msg as View>::V>;

    /// The engine's own invariant.
    spec fn wf(&self) -> bool;

    /// Whether this kind of engine fails for no other reason than an offset
    /// that is not in the log.
    spec fn reliable() -> bool;

    /// The error with which the last append, snapshot or recovery that
    /// failed did fail, if any did.
    spec fn last_failure(&self) -> Option<StorageError>;

    /// Appends a message to the storage.
    fn append(&mut self, message: Self::Msg) -> (result: Result<(), StorageError>)
        requires
            old(self).wf(),
        ensures
            final(self).wf(),
            result is Ok ==> final(self).state() == old(self).state().append(message@),
            result matches Err(error) ==> final(self).last_failure() == Some(error),
            Self::reliable() ==> result is Ok,
    ;

    /// Retrieves a message by offset.
    fn get(&self, offset: u64) -> (result: Result<Self::Msg, StorageError>)
        requires
            self.wf(),
        ensures
            result matches Ok(message) ==> self.state().get(offset as int) == Some(message@),
            self.state().get(offset as int) is None ==> result is Err,
            Self::reliable() && self.state().get(offset as int) is Some ==> result is Ok,
    ;

    /// Retrieves the messages from `start_offset` (inclusive) to `end_offset`
    /// (exclusive).
    fn get_range(&self, start_offset: u64, end_offset: u64) -> (result: Result<
        Vec<Self::Msg>,
        StorageError,
    >)
        requires
            self.wf(),
        ensures
            result matches Ok(messages) ==> views(messages@) == self.state().range(
                start_offset as int,
                end_offset as int,
            ) && messages@.len() == self.state().range(start_offset as int, end_offset as int).len(),
            Self::reliable() ==> result is Ok,
    ;

    /// Gets the latest offset: the number of messages stored.
    fn latest_offset(&self) -> (result: Result<u64, StorageError>)
        requires
            self.wf(),
        ensures
            result matches Ok(n) ==> n == self.state().latest_offset(),
            Self::reliable() ==> result is Ok,
    ;

    /// Copies the log into the snapshot and clears the write-ahead log.
    fn snapshot(&mut self) -> (result: Result<(), StorageError>)
        requires
            old(self).wf(),
        ensures
            final(self).wf(),
            result is Ok ==> final(self).state() == old(self).state().take_snapshot(),
            result matches Err(error) ==> final(self).last_failure() == Some(error),
            Self::reliable() ==> result is Ok,
    ;

    /// Rebuilds the log from the snapshot and the write-ahead log.
    fn recover(&mut self) -> (result: Result<(), StorageError>)
        requires
            old(self).wf(),
        ensures
            final(self).wf(),
            result is Ok ==> final(self).state() == old(self).state().recover(),
            result matches Err(error) ==> final(self).last_failure() == Some(error),
            Self::reliable() ==> result is Ok,
    ;
}

/// Appending keeps offsets contiguous: the new message is found at the offset
/// that was the length of the log, and every earlier offset holds what it held.
pub proof fn lemma_append_round_trip<V>(s: LogState<V>, message: V)
    ensures
        s.append(message).get(s.latest_offset() as int) == Some(message),
        s.append(message).latest_offset() == s.latest_offset() + 1,
        forall|i: int| 0 <= i < s.latest_offset() ==> s.append(message).get(i) == s.get(i),
{
}

/// A range that starts at 0 and ends at or beyond the length of the log is
/// the whole log; a range that starts at the length of the log is empty.
pub proof fn lemma_range_clamps<V>(s: LogState<V>, end: int, more: int)
    requires
        end >= s.log.len(),
    ensures
        s.range(0, end) == s.log,
        s.range(0, end).len() == s.latest_offset(),
        s.range(s.log.len() as int, s.log.len() + more) == Seq::<V>::empty(),
{
    if s.log.len() > 0 {
        assert(s.log.subrange(0, s.log.len() as int) =~= s.log);
    } else {
        assert(s.range(0, end) =~= s.log);
    }
}

/// A snapshot followed by a recovery, with no write in between, leaves the log
/// as it was: the same length and the same message at every offset.
pub proof fn lemma_snapshot_then_recover<V>(s: LogState<V>)
    ensures
        s.take_snapshot().recover().log == s.log,
        s.take_snapshot().recover().latest_offset() == s.latest_offset(),
        forall|i: int| s.take_snapshot().recover().get(i) == s.get(i),
{
    assert(s.take_snapshot().recover().log =~= s.log);
}

/// Recovery is idempotent: a second recovery changes nothing.
pub proof fn lemma_recover_is_idempotent<V>(s: LogState<V>)
    ensures
        s.recover().recover() == s.recover(),
{
}

/// Every operation keeps a consistent state consistent, and on a consistent
/// state recovery changes nothing at all.
pub proof fn lemma_consistency<V>(s: LogState<V>, message: V)
    ensures
        LogState::<V>::empty().consistent(),
        s.take_snapshot().consistent(),
        s.recover().consistent(),
        s.consistent() ==> s.append(message).consistent(),
        s.consistent() ==> s.recover() == s,
{
    assert(LogState::<V>::empty().log =~= LogState::<V>::empty().snapshot + LogState::<V>::empty().wal);
    assert(s.take_snapshot().log =~= s.take_snapshot().snapshot + s.take_snapshot().wal);
    if s.consistent() {
        assert(s.append(message).log =~= s.append(message).snapshot + s.append(message).wal);
    }
}

} // verus!
