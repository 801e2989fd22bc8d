//! The in-memory storage engine: log, snapshot and write-ahead log held as
//! three ordered sequences.

use vstd::prelude::*;
use vstd::string::*;
use crate::errors::storage_error::StorageError;
use crate::message::{duplicate_all, views, Message};
use crate::storage_engine::{lemma_consistency, not_found_text, LogState, StorageEngine};
use crate::text::push_decimal;

verus! {

/// In-memory storage engine with write-ahead log (WAL) and snapshot
/// capabilities. It never fails but for an offset that is not in the log.
pub struct InMemoryStorage<M> {
    log: Vec<M>,
    snapshot: Vec<M>,
    wal: Vec<M>,
}

impl<M: Message> InMemoryStorage<M> {
    /// Creates a new `InMemoryStorage` instance, with nothing stored.
    pub fn new() -> (storage: Self)
        ensures
            storage.state() == LogState::<M::V>::empty(),
            storage.wf(),
    {
        let storage = InMemoryStorage { log: Vec::new(), snapshot: Vec::new(), wal: Vec::new() };
        assert(storage.state().log =~= Seq::empty());
        assert(storage.state().snapshot =~= Seq::empty());
        assert(storage.state().wal =~= Seq::empty());
        proof {
            lemma_consistency(storage.state(), arbitrary());
        }
        storage
    }

    /// Writes a copy of `message` to the write-ahead log.
    fn write_to_wal(&mut self, message: &M) -> (result: Result<(), StorageError>)
        ensures
            result is Ok,
            final(self).state().wal == old(self).state().wal.push(message@),
            final(self).state().log == old(self).state().log,
            final(self).state().snapshot == old(self).state().snapshot,
    {
        self.wal.push(message.duplicate());
        assert(views(self.wal@) =~= views(old(self).wal@).push(message@));
        Ok(())
    }

    /// Clears the write-ahead log after a snapshot.
    fn clear_wal(&mut self)
        ensures
            final(self).state().wal == Seq::<M::V>::empty(),
            final(self).state().log == old(self).state().log,
            final(self).state().snapshot == old(self).state().snapshot,
    {
        self.wal.clear();
        assert(views(self.wal@) =~= Seq::empty());
    }
}

impl<M: Message> StorageEngine for InMemoryStorage<M> {
    type Msg = M;

    closed spec fn state(&self) -> LogState<M::V> {
        LogState { log: views(self.log@), snapshot: views(self.snapshot@), wal: views(self.wal@) }
    }

    open spec fn reliable() -> bool {
        true
    }

    /// No append, snapshot or recovery of this engine fails.
    open spec fn last_failure(&self) -> Option<StorageError> {
        None
    }

    /// The log always holds what recovery would rebuild: the snapshot
    /// followed by the write-ahead log.
    open spec fn wf(&self) -> bool {
        self.state().consistent()
    }

    /// Appends a message: first to the write-ahead log, then to the log.
    fn append(&mut self, message: M) -> (result: Result<(), StorageError>)
        ensures
            result is Ok,
    {
        let written = self.write_to_wal(&message);
        match written {
            Ok(()) => {},
            Err(e) => {
                return Err(e);
            },
        }
        self.log.push(message);
        assert(views(self.log@) =~= views(old(self).log@).push(message@));
        proof {
            lemma_consistency(old(self).state(), message@);
        }
        Ok(())
    }

    /// Retrieves a message by its offset; `NotFound` for an offset at or
    /// beyond the length of the log.
    fn get(&self, offset: u64) -> (result: Result<M, StorageError>)
        ensures
            result is Ok <==> offset < self.state().latest_offset(),
            result matches Err(e) ==> e matches StorageError::NotFound(detail) && detail@
                == not_found_text(offset),
    {
        if offset < self.log.len() as u64 {
            let message = self.log[offset as usize].duplicate();
            Ok(message)
        } else {
            let mut detail = String::from_str("No message at offset ");
            push_decimal(&mut detail, offset);
            Err(StorageError::NotFound(detail))
        }
    }

    /// Retrieves the messages between `start_offset` (inclusive) and
    /// `end_offset` (exclusive), clamped to the log. Never fails.
    fn get_range(&self, start_offset: u64, end_offset: u64) -> (result: Result<
        Vec<M>,
        StorageError,
    >)
        ensures
            result is Ok,
    {
        let len = self.log.len() as u64;
        let stop = if end_offset < len {
            end_offset
        } else {
            len
        };
        let mut messages: Vec<M> = Vec::new();
        if start_offset >= stop {
            assert(views(messages@) =~= self.state().range(start_offset as int, end_offset as int));
            return Ok(messages);
        }
        let mut i: u64 = start_offset;
        while i < stop
            invariant
                start_offset <= i <= stop <= self.log.len(),
                messages@.len() == i - start_offset,
                forall|j: int|
                    0 <= j < messages@.len() ==> (#[trigger] messages@[j])@ == self.log@[start_offset
                        + j]@,
            decreases stop - i,
        {
            messages.push(self.log[i as usize].duplicate());
            i = i + 1;
        }
        assert(views(messages@) =~= views(self.log@).subrange(start_offset as int, stop as int));
        Ok(messages)
    }

    /// Gets the latest offset: the number of messages stored. Never fails.
    fn latest_offset(&self) -> (result: Result<u64, StorageError>)
        ensures
            result is Ok,
    {
        Ok(self.log.len() as u64)
    }

    /// Copies the current log to the snapshot and clears the WAL. Never fails.
    fn snapshot(&mut self) -> (result: Result<(), StorageError>)
        ensures
            result is Ok,
    {
        self.snapshot = duplicate_all(&self.log);
        self.clear_wal();
        proof {
            lemma_consistency(old(self).state(), arbitrary());
        }
        Ok(())
    }

    /// Restores the log from the snapshot and replays the WAL entries after
    /// it. The WAL is kept. Never fails.
    fn recover(&mut self) -> (result: Result<(), StorageError>)
        ensures
            result is Ok,
            final(self).state() == old(self).state(),
    {
        let mut log = duplicate_all(&self.snapshot);
        let mut i: usize = 0;
        while i < self.wal.len()
            invariant
                i <= self.wal@.len(),
                views(log@) == views(self.snapshot@) + views(self.wal@).subrange(0, i as int),
            decreases self.wal.len() - i,
        {
            let ghost before = log@;
            log.push(self.wal[i].duplicate());
            assert(views(log@) =~= views(before).push(self.wal@[i as int]@));
            assert(views(self.wal@).subrange(0, i as int + 1) =~= views(self.wal@).subrange(
                0,
                i as int,
            ).push(self.wal@[i as int]@));
            assert(views(log@) =~= views(self.snapshot@) + views(self.wal@).subrange(
                0,
                i as int + 1,
            ));
            i = i + 1;
        }
        assert(views(self.wal@).subrange(0, i as int) =~= views(self.wal@));
        self.log = log;
        proof {
            lemma_consistency(old(self).state(), arbitrary());
        }
        Ok(())
    }
}

} // verus!
