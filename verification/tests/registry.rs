use rafka::offsets::OffsetTracker;
use rafka::topics::TopicRegistry;

#[test]
fn ensure_topic_is_idempotent() {
    let mut topics = TopicRegistry::new();
    assert!(!topics.contains("greetings"));
    assert_eq!(topics.topic_count(), 0);
    topics.ensure_topic("greetings");
    topics.ensure_topic("greetings");
    assert!(topics.contains("greetings"));
    assert_eq!(topics.topic_count(), 1);
    topics.ensure_topic("other");
    assert_eq!(topics.topic_count(), 2);
}

#[test]
fn subscribe_creates_the_topic_and_is_idempotent() {
    let mut topics = TopicRegistry::new();
    topics.subscribe("c1", "greetings");
    assert!(topics.contains("greetings"));
    assert!(topics.is_subscribed("c1", "greetings"));
    assert!(!topics.is_subscribed("c2", "greetings"));
    assert!(!topics.is_subscribed("c1", "other"));
    topics.subscribe("c1", "greetings");
    topics.subscribe("c2", "greetings");
    assert!(topics.is_subscribed("c1", "greetings"));
    assert!(topics.is_subscribed("c2", "greetings"));
    assert_eq!(topics.topic_count(), 1);
}

#[test]
fn ensure_topic_keeps_subscribers() {
    let mut topics = TopicRegistry::new();
    topics.subscribe("c1", "a");
    topics.ensure_topic("a");
    topics.ensure_topic("b");
    topics.subscribe("c2", "b");
    assert!(topics.is_subscribed("c1", "a"));
    assert!(!topics.is_subscribed("c1", "b"));
    assert!(topics.is_subscribed("c2", "b"));
    assert!(!topics.is_subscribed("c2", "a"));
}

#[test]
fn offset_tracker_is_last_write_wins() {
    let mut tracker = OffsetTracker::new();
    assert_eq!(tracker.get("c", "t"), None);
    tracker.set("c", "t", 5);
    assert_eq!(tracker.get("c", "t"), Some(5));
    tracker.set("c", "t", 2);
    assert_eq!(tracker.get("c", "t"), Some(2));
    tracker.set("c", "u", 9);
    tracker.set("d", "t", 1);
    assert_eq!(tracker.get("c", "t"), Some(2));
    assert_eq!(tracker.get("c", "u"), Some(9));
    assert_eq!(tracker.get("d", "t"), Some(1));
    assert_eq!(tracker.get("d", "u"), None);
}

#[test]
fn offset_tracker_keeps_consumer_and_topic_apart() {
    let mut tracker = OffsetTracker::new();
    tracker.set("ab", "c", 1);
    tracker.set("a", "bc", 2);
    assert_eq!(tracker.get("ab", "c"), Some(1));
    assert_eq!(tracker.get("a", "bc"), Some(2));
    assert_eq!(tracker.get("abc", ""), None);
}
