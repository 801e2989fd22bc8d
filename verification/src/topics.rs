//! The topic registry: which topics exist and who is subscribed to each.

use vstd::prelude::*;
use vstd::string::*;

verus! {

/// A topic and the consumers subscribed to it.
pub struct Topic {
    pub name: String,
    pub subscribers: Vec<String>,
}

/// The set of the texts held in `ids`.
pub open spec fn id_set(ids: Seq<String>) -> Set<Seq<char>> {
    Set::new(|id: Seq<char>| exists|j: int| 0 <= j < ids.len() && #[trigger] ids[j]@ == id)
}

/// Whether `ids` names no identity twice.
pub open spec fn ids_distinct(ids: Seq<String>) -> bool {
    forall|i: int, j: int|
        0 <= i < ids.len() && 0 <= j < ids.len() && i != j ==> #[trigger] ids[i]@ != #[trigger] ids[j]@
}

/// Finds `id` in `ids`.
pub fn position_of(ids: &Vec<String>, id: &String) -> (found: Option<usize>)
    ensures
        found matches Some(i) ==> i < ids@.len() && ids@[i as int]@ == id@,
        found is None ==> !id_set(ids@).contains(id@),
        found is Some ==> id_set(ids@).contains(id@),
{
    let mut i: usize = 0;
    while i < ids.len()
        invariant
            i <= ids.len(),
            forall|j: int| 0 <= j < i ==> #[trigger] ids@[j]@ != id@,
        decreases ids.len() - i,
    {
        if ids[i] == *id {
            return Some(i);
        }
        i = i + 1;
    }
    None
}

/// The topics after `topic` was touched: it exists, and every subscription
/// is as it was.
pub open spec fn ensured(topics: Map<Seq<char>, Set<Seq<char>>>, topic: Seq<char>) -> Map<
    Seq<char>,
    Set<Seq<char>>,
> {
    if topics.dom().contains(topic) {
        topics
    } else {
        topics.insert(topic, Set::empty())
    }
}

/// The topics after `consumer` subscribed to `topic`.
pub open spec fn subscribed(
    topics: Map<Seq<char>, Set<Seq<char>>>,
    consumer: Seq<char>,
    topic: Seq<char>,
) -> Map<Seq<char>, Set<Seq<char>>> {
    topics.insert(
        topic,
        (if topics.dom().contains(topic) {
            topics[topic]
        } else {
            Set::empty()
        }).insert(consumer),
    )
}

/// Touching a topic twice is touching it once, and it takes no subscriber
/// away from any topic.
pub proof fn lemma_ensure_topic_is_idempotent(topics: Map<Seq<char>, Set<Seq<char>>>, topic: Seq<char>)
    ensures
        ensured(ensured(topics, topic), topic) == ensured(topics, topic),
        ensured(topics, topic).dom().contains(topic),
        forall|other: Seq<char>|
            topics.dom().contains(other) ==> ensured(topics, topic).dom().contains(other)
                && #[trigger] ensured(topics, topic)[other] == topics[other],
{
}

/// Subscribing twice is subscribing once; a subscription makes the topic
/// exist, adds the consumer to it, and changes no other topic.
pub proof fn lemma_subscribe_is_idempotent(
    topics: Map<Seq<char>, Set<Seq<char>>>,
    consumer: Seq<char>,
    topic: Seq<char>,
)
    ensures
        subscribed(subscribed(topics, consumer, topic), consumer, topic) == subscribed(
            topics,
            consumer,
            topic,
        ),
        subscribed(topics, consumer, topic).dom().contains(topic),
        subscribed(topics, consumer, topic)[topic].contains(consumer),
        subscribed(topics, consumer, topic) == subscribed(ensured(topics, topic), consumer, topic),
        forall|other: Seq<char>|
            other != topic && topics.dom().contains(other) ==> #[trigger] subscribed(
                topics,
                consumer,
                topic,
            )[other] == topics[other],
{
    let once = subscribed(topics, consumer, topic);
    assert(once[topic].insert(consumer) =~= once[topic]);
    assert(subscribed(once, consumer, topic) =~= once);
    assert(subscribed(ensured(topics, topic), consumer, topic) =~= once);
}

/// Topics by name, each with the set of its subscribers. Topics are created
/// on first touch and never removed.
pub struct TopicRegistry {
    topics: Vec<Topic>,
}

impl TopicRegistry {
    /// No topic name occurs twice, and no topic lists a subscriber twice.
    pub closed spec fn wf(&self) -> bool {
        &&& forall|i: int, j: int|
            0 <= i < self.topics@.len() && 0 <= j < self.topics@.len() && i != j
                ==> #[trigger] self.topics@[i].name@ != #[trigger] self.topics@[j].name@
        &&& forall|i: int|
            0 <= i < self.topics@.len() ==> ids_distinct(#[trigger] self.topics@[i].subscribers@)
    }

    /// Whether a topic named `name` exists.
    pub closed spec fn has_topic(&self, name: Seq<char>) -> bool {
        exists|i: int| 0 <= i < self.topics@.len() && #[trigger] self.topics@[i].name@ == name
    }

    /// The subscribers of the topic named `name`.
    pub closed spec fn subscribers_of(&self, name: Seq<char>) -> Set<Seq<char>> {
        let i = choose|i: int| 0 <= i < self.topics@.len() && #[trigger] self.topics@[i].name@ == name;
        id_set(self.topics@[i].subscribers@)
    }

    /// The registry as a map from topic name to the set of its subscribers.
    pub open spec fn view(&self) -> Map<Seq<char>, Set<Seq<char>>> {
        Map::new(|name: Seq<char>| self.has_topic(name), |name: Seq<char>| self.subscribers_of(name))
    }

    proof fn lemma_topic_at(&self, i: int)
        requires
            self.wf(),
            0 <= i < self.topics@.len(),
        ensures
            self.has_topic(self.topics@[i].name@),
            self.subscribers_of(self.topics@[i].name@) == id_set(self.topics@[i].subscribers@),
    {
    }

    /// Creates a registry without topics.
    pub fn new() -> (registry: Self)
        ensures
            registry.wf(),
            registry@ == Map::<Seq<char>, Set<Seq<char>>>::empty(),
    {
        let registry = TopicRegistry { topics: Vec::new() };
        assert(registry@ =~= Map::empty());
        registry
    }

    fn find(&self, name: &String) -> (found: Option<usize>)
        requires
            self.wf(),
        ensures
            found matches Some(i) ==> i < self.topics@.len() && self.topics@[i as int].name@
                == name@,
            found is Some <==> self.has_topic(name@),
    {
        let mut i: usize = 0;
        while i < self.topics.len()
            invariant
                i <= self.topics.len(),
                forall|j: int| 0 <= j < i ==> #[trigger] self.topics@[j].name@ != name@,
            decreases self.topics.len() - i,
        {
            if self.topics[i].name == *name {
                return Some(i);
            }
            i = i + 1;
        }
        None
    }

    /// Whether a topic named `name` exists.
    pub fn contains(&self, name: &str) -> (exists: bool)
        requires
            self.wf(),
        ensures
            exists == self@.dom().contains(name@),
    {
        let owned = String::from_str(name);
        self.find(&owned).is_some()
    }

    /// The number of topics.
    pub fn topic_count(&self) -> (count: usize)
        requires
            self.wf(),
        ensures
            self@.dom().finite(),
            count == self@.dom().len(),
    {
        proof {
            let names = self.topics@.map_values(|topic: Topic| topic.name@);
            assert forall|name: Seq<char>| self@.dom().contains(name) <==> exists|i: int|
                0 <= i < names.len() && #[trigger] names[i] == name by {
                if self.has_topic(name) {
                    let i = choose|i: int|
                        0 <= i < self.topics@.len() && #[trigger] self.topics@[i].name@ == name;
                    assert(names[i] == name);
                }
                if exists|i: int| 0 <= i < names.len() && #[trigger] names[i] == name {
                    let i = choose|i: int| 0 <= i < names.len() && #[trigger] names[i] == name;
                    assert(self.topics@[i].name@ == name);
                }
            }
            assert forall|i: int, j: int|
                0 <= i < names.len() && 0 <= j < names.len() && i != j implies #[trigger] names[i]
                != #[trigger] names[j] by {
                assert(self.topics@[i].name@ != self.topics@[j].name@);
            }
            lemma_distinct_texts_count(names, self@.dom());
        }
        self.topics.len()
    }

    /// Creates the topic `name` if it does not exist; does nothing if it does.
    pub fn ensure_topic(&mut self, name: &str)
        requires
            old(self).wf(),
        ensures
            final(self).wf(),
            final(self)@ == ensured(old(self)@, name@),
    {
        let owned = String::from_str(name);
        if self.find(&owned).is_none() {
            self.topics.push(Topic { name: owned, subscribers: Vec::new() });
            proof {
                let last = self.topics@.len() - 1;
                assert(self.topics@[last].name@ == name@);
                assert(id_set(self.topics@[last].subscribers@) =~= Set::empty());
                assert forall|i: int| 0 <= i < old(self).topics@.len() implies self.topics@[i]
                    == old(self).topics@[i] by {}
                assert(self.wf());
                self.lemma_topic_at(last);
                assert forall|n: Seq<char>| self.has_topic(n) <==> (old(self).has_topic(n) || n
                    == name@) by {
                    if old(self).has_topic(n) {
                        let i = choose|i: int|
                            0 <= i < old(self).topics@.len() && #[trigger] old(self).topics@[i].name@
                                == n;
                        assert(self.topics@[i].name@ == n);
                    }
                }
                assert forall|n: Seq<char>| old(self).has_topic(n) implies self.subscribers_of(n)
                    == old(self).subscribers_of(n) by {
                    let i = choose|i: int|
                        0 <= i < old(self).topics@.len() && #[trigger] old(self).topics@[i].name@
                            == n;
                    old(self).lemma_topic_at(i);
                    self.lemma_topic_at(i);
                }
                assert(self@ =~= old(self)@.insert(name@, Set::empty()));
            }
        }
    }

    /// Subscribes `consumer_id` to `topic`, creating the topic if it does not
    /// exist. Subscribing twice is the same as subscribing once.
    pub fn subscribe(&mut self, consumer_id: &str, topic: &str)
        requires
            old(self).wf(),
        ensures
            final(self).wf(),
            final(self)@ == subscribed(old(self)@, consumer_id@, topic@),
    {
        self.ensure_topic(topic);
        let ghost mid = *self;
        let owned_topic = String::from_str(topic);
        let owned_id = String::from_str(consumer_id);
        assert(mid@.dom().contains(topic@));
        assert(mid.has_topic(topic@));
        let found = self.find(&owned_topic);
        match found {
            Some(i) => {
                proof {
                    mid.lemma_topic_at(i as int);
                }
                let mut entry = Topic { name: owned_topic, subscribers: Vec::new() };
                self.swap_topic(i, &mut entry);
                if position_of(&entry.subscribers, &owned_id).is_none() {
                    let ghost before = entry.subscribers@;
                    entry.subscribers.push(owned_id);
                    assert(id_set(entry.subscribers@) =~= id_set(before).insert(consumer_id@)) by {
                        assert forall|c: Seq<char>| id_set(entry.subscribers@).contains(c)
                            <==> id_set(before).insert(consumer_id@).contains(c) by {
                            if id_set(before).contains(c) {
                                let j = choose|j: int| 0 <= j < before.len() && #[trigger] before[j]@ == c;
                                assert(entry.subscribers@[j]@ == c);
                            }
                            if c == consumer_id@ {
                                assert(entry.subscribers@[before.len() as int]@ == c);
                            }
                        }
                    }
                    assert(ids_distinct(entry.subscribers@));
                } else {
                    assert(id_set(entry.subscribers@) =~= id_set(entry.subscribers@).insert(
                        consumer_id@,
                    ));
                }
                self.swap_topic(i, &mut entry);
                proof {
                    assert(self.wf());
                    self.lemma_topic_at(i as int);
                    assert forall|n: Seq<char>| self.has_topic(n) <==> mid.has_topic(n) by {
                        if mid.has_topic(n) {
                            let k = choose|k: int|
                                0 <= k < mid.topics@.len() && #[trigger] mid.topics@[k].name@ == n;
                            assert(self.topics@[k].name@ == n);
                        }
                        if self.has_topic(n) {
                            let k = choose|k: int|
                                0 <= k < self.topics@.len() && #[trigger] self.topics@[k].name@ == n;
                            assert(mid.topics@[k].name@ == n);
                        }
                    }
                    assert forall|n: Seq<char>| mid.has_topic(n) && n != topic@ implies self.subscribers_of(
                        n,
                    ) == mid.subscribers_of(n) by {
                        let k = choose|k: int|
                            0 <= k < mid.topics@.len() && #[trigger] mid.topics@[k].name@ == n;
                        mid.lemma_topic_at(k);
                        self.lemma_topic_at(k);
                    }
                    assert(self@ =~= mid@.insert(topic@, mid@[topic@].insert(consumer_id@)));
                }
            },
            None => {},
        }
    }

    /// Exchanges the topic at `i` with `entry`, which must carry the same name.
    fn swap_topic(&mut self, i: usize, entry: &mut Topic)
        requires
            i < old(self).topics@.len(),
        ensures
            final(self).topics@ == old(self).topics@.update(i as int, *old(entry)),
            *final(entry) == old(self).topics@[i as int],
    {
        let mut taken = Topic { name: String::new(), subscribers: Vec::new() };
        std::mem::swap(entry, &mut taken);
        let previous = self.replace_at(i, taken);
        *entry = previous;
    }

    fn replace_at(&mut self, i: usize, topic: Topic) -> (previous: Topic)
        requires
            i < old(self).topics@.len(),
        ensures
            final(self).topics@ == old(self).topics@.update(i as int, topic),
            previous == old(self).topics@[i as int],
    {
        self.topics.push(topic);
        self.topics.swap_remove(i)
    }

    /// Whether `consumer_id` is subscribed to `topic`.
    pub fn is_subscribed(&self, consumer_id: &str, topic: &str) -> (subscribed: bool)
        requires
            self.wf(),
        ensures
            subscribed == (self@.dom().contains(topic@) && self@[topic@].contains(consumer_id@)),
    {
        let owned_topic = String::from_str(topic);
        let owned_id = String::from_str(consumer_id);
        match self.find(&owned_topic) {
            Some(i) => {
                proof {
                    self.lemma_topic_at(i as int);
                }
                position_of(&self.topics[i].subscribers, &owned_id).is_some()
            },
            None => false,
        }
    }
}

/// A set that holds exactly the texts of a list without repetitions is
/// finite and has as many elements as the list.
pub proof fn lemma_distinct_texts_count(texts: Seq<Seq<char>>, set: Set<Seq<char>>)
    requires
        forall|i: int, j: int|
            0 <= i < texts.len() && 0 <= j < texts.len() && i != j ==> #[trigger] texts[i]
                != #[trigger] texts[j],
        forall|text: Seq<char>|
            set.contains(text) <==> exists|i: int| 0 <= i < texts.len() && #[trigger] texts[i] == text,
    ensures
        set.finite(),
        set.len() == texts.len(),
    decreases texts.len(),
{
    if texts.len() == 0 {
        assert(set =~= Set::empty());
    } else {
        let last = texts.last();
        let rest = texts.drop_last();
        let smaller = set.remove(last);
        assert(texts[texts.len() - 1] == last);
        assert(set.contains(last));
        assert forall|text: Seq<char>| smaller.contains(text) <==> exists|i: int|
            0 <= i < rest.len() && #[trigger] rest[i] == text by {
            if smaller.contains(text) {
                let i = choose|i: int| 0 <= i < texts.len() && #[trigger] texts[i] == text;
                assert(i != texts.len() - 1);
                assert(rest[i] == text);
            }
            if exists|i: int| 0 <= i < rest.len() && #[trigger] rest[i] == text {
                let i = choose|i: int| 0 <= i < rest.len() && #[trigger] rest[i] == text;
                assert(texts[i] == text);
                assert(texts[i] != texts[texts.len() - 1]);
            }
        }
        assert forall|i: int, j: int|
            0 <= i < rest.len() && 0 <= j < rest.len() && i != j implies #[trigger] rest[i]
            != #[trigger] rest[j] by {
            assert(texts[i] != texts[j]);
        }
        lemma_distinct_texts_count(rest, smaller);
        assert(set =~= smaller.insert(last));
    }
}

/// A list of identities without repetitions stays one when an identity
/// that it does not hold is put behind it, and then holds that one more.
pub proof fn lemma_push_fresh_id(ids: Seq<String>, id: String)
    requires
        ids_distinct(ids),
        !id_set(ids).contains(id@),
    ensures
        ids_distinct(ids.push(id)),
        id_set(ids.push(id)) == id_set(ids).insert(id@),
{
    let longer = ids.push(id);
    assert forall|c: Seq<char>| id_set(longer).contains(c) <==> id_set(ids).insert(id@).contains(
        c,
    ) by {
        if id_set(ids).contains(c) {
            let j = choose|j: int| 0 <= j < ids.len() && #[trigger] ids[j]@ == c;
            assert(longer[j]@ == c);
        }
        if c == id@ {
            assert(longer[ids.len() as int]@ == c);
        }
    }
    assert(id_set(longer) =~= id_set(ids).insert(id@));
    assert forall|i: int, j: int|
        0 <= i < longer.len() && 0 <= j < longer.len() && i != j implies #[trigger] longer[i]@
        != #[trigger] longer[j]@ by {
        if i < ids.len() {
            assert(id_set(ids).contains(ids[i]@));
        }
        if j < ids.len() {
            assert(id_set(ids).contains(ids[j]@));
        }
    }
}

} // verus!
