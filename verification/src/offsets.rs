//! The offset tracker: the read position of each consumer on each topic.

use vstd::prelude::*;
use vstd::string::*;

verus! {

/// The read position of one consumer on one topic.
pub struct OffsetEntry {
    pub consumer_id: String,
    pub topic: String,
    pub offset: i64,
}

/// A last-write-wins store of consumer offsets, keyed by consumer and topic.
/// It checks nothing: what may be written is decided by the broker.
pub struct OffsetTracker {
    entries: Vec<OffsetEntry>,
}

impl OffsetTracker {
    /// No pair of consumer and topic occurs twice.
    pub closed spec fn wf(&self) -> bool {
        forall|i: int, j: int|
            #![trigger self.entries@[i], self.entries@[j]]
            0 <= i < self.entries@.len() && 0 <= j < self.entries@.len() && i != j ==> !(
            self.entries@[i].consumer_id@ == self.entries@[j].consumer_id@
                && self.entries@[i].topic@ == self.entries@[j].topic@)
    }

    /// Whether an offset is recorded for the pair.
    pub closed spec fn has(&self, key: (Seq<char>, Seq<char>)) -> bool {
        exists|i: int|
            0 <= i < self.entries@.len() && (#[trigger] self.entries@[i]).consumer_id@ == key.0
                && self.entries@[i].topic@ == key.1
    }

    /// The offset recorded for the pair.
    pub closed spec fn offset_of(&self, key: (Seq<char>, Seq<char>)) -> i64 {
        let i = choose|i: int|
            0 <= i < self.entries@.len() && (#[trigger] self.entries@[i]).consumer_id@ == key.0
                && self.entries@[i].topic@ == key.1;
        self.entries@[i].offset
    }

    /// The tracker as a map from (consumer, topic) to offset.
    pub open spec fn view(&self) -> Map<(Seq<char>, Seq<char>), i64> {
        Map::new(
            |key: (Seq<char>, Seq<char>)| self.has(key),
            |key: (Seq<char>, Seq<char>)| self.offset_of(key),
        )
    }

    proof fn lemma_entry_at(&self, i: int)
        requires
            self.wf(),
            0 <= i < self.entries@.len(),
        ensures
            self.has((self.entries@[i].consumer_id@, self.entries@[i].topic@)),
            self.offset_of((self.entries@[i].consumer_id@, self.entries@[i].topic@))
                == self.entries@[i].offset,
    {
    }

    /// Creates a tracker without entries.
    pub fn new() -> (tracker: Self)
        ensures
            tracker.wf(),
            tracker@ == Map::<(Seq<char>, Seq<char>), i64>::empty(),
    {
        let tracker = OffsetTracker { entries: Vec::new() };
        assert(tracker@ =~= Map::empty());
        tracker
    }

    fn find(&self, consumer_id: &String, topic: &String) -> (found: Option<usize>)
        requires
            self.wf(),
        ensures
            found matches Some(i) ==> i < self.entries@.len() && self.entries@[i as int].consumer_id@
                == consumer_id@ && self.entries@[i as int].topic@ == topic@,
            found is Some <==> self.has((consumer_id@, topic@)),
    {
        let mut i: usize = 0;
        while i < self.entries.len()
            invariant
                i <= self.entries.len(),
                forall|j: int|
                    0 <= j < i ==> !((#[trigger] self.entries@[j]).consumer_id@ == consumer_id@
                        && self.entries@[j].topic@ == topic@),
            decreases self.entries.len() - i,
        {
            if self.entries[i].consumer_id == *consumer_id && self.entries[i].topic == *topic {
                return Some(i);
            }
            i = i + 1;
        }
        None
    }

    /// The offset recorded for `consumer_id` on `topic`, if any.
    pub fn get(&self, consumer_id: &str, topic: &str) -> (offset: Option<i64>)
        requires
            self.wf(),
        ensures
            offset == (if self@.dom().contains((consumer_id@, topic@)) {
                Some(self@[(consumer_id@, topic@)])
            } else {
                None
            }),
    {
        let owned_id = String::from_str(consumer_id);
        let owned_topic = String::from_str(topic);
        match self.find(&owned_id, &owned_topic) {
            Some(i) => {
                proof {
                    self.lemma_entry_at(i as int);
                }
                Some(self.entries[i].offset)
            },
            None => None,
        }
    }

    /// Records `offset` for `consumer_id` on `topic`, replacing what was
    /// recorded before. Every other entry stays as it is.
    pub fn set(&mut self, consumer_id: &str, topic: &str, offset: i64)
        requires
            old(self).wf(),
        ensures
            final(self).wf(),
            final(self)@ == old(self)@.insert((consumer_id@, topic@), offset),
    {
        let owned_id = String::from_str(consumer_id);
        let owned_topic = String::from_str(topic);
        let found = self.find(&owned_id, &owned_topic);
        let entry = OffsetEntry { consumer_id: owned_id, topic: owned_topic, offset };
        match found {
            Some(i) => {
                self.entries.push(entry);
                let _ = self.entries.swap_remove(i);
                assert(self.entries@ =~= old(self).entries@.update(i as int, entry));
            },
            None => {
                self.entries.push(entry);
            },
        }
        proof {
            let key = (consumer_id@, topic@);
            let at = match found {
                Some(i) => i as int,
                None => old(self).entries@.len() as int,
            };
            assert(self.entries@[at] == entry);
            assert forall|k: int| 0 <= k < self.entries@.len() && k != at implies self.entries@[k]
                == old(self).entries@[k] by {}
            assert(self.wf());
            self.lemma_entry_at(at);
            assert forall|other: (Seq<char>, Seq<char>)| other != key implies (self.has(other)
                <==> old(self).has(other)) && (old(self).has(other) ==> self.offset_of(other)
                == old(self).offset_of(other)) by {
                if old(self).has(other) {
                    let k = choose|k: int|
                        0 <= k < old(self).entries@.len() && (#[trigger] old(self).entries@[k]).consumer_id@
                            == other.0 && old(self).entries@[k].topic@ == other.1;
                    assert(k != at);
                    assert(self.entries@[k] == old(self).entries@[k]);
                    old(self).lemma_entry_at(k);
                    self.lemma_entry_at(k);
                }
                if self.has(other) {
                    let k = choose|k: int|
                        0 <= k < self.entries@.len() && (#[trigger] self.entries@[k]).consumer_id@
                            == other.0 && self.entries@[k].topic@ == other.1;
                    assert(k != at);
                    assert(old(self).entries@[k] == self.entries@[k]);
                }
            }
            assert(self@ =~= old(self)@.insert(key, offset));
        }
    }
}

} // verus!
