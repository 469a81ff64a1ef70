use autobahnkreuz::router::pubsub::patterns::{split, PatternError};
use autobahnkreuz::router::pubsub::SubscriptionPatternNode;
use autobahnkreuz::{MatchingPolicy, URI};

fn text(label: &[char]) -> String {
    label.iter().collect()
}

fn parts(uri: &str) -> Vec<String> {
    split(uri).iter().map(|l| text(l)).collect()
}

#[test]
fn publication_reaches_strict_and_prefix_subscribers() {
    let mut root = SubscriptionPatternNode::new();
    let strict = root.subscribe_with(&URI::new("a.b.c"), 1, MatchingPolicy::Strict, 10, 11);
    let prefix = root.subscribe_with(&URI::new("a.b"), 2, MatchingPolicy::Prefix, 20, 21);
    let other = root.subscribe_with(&URI::new("a.b"), 3, MatchingPolicy::Strict, 30, 31);
    assert_eq!(strict, 10);
    assert_eq!(prefix, 21);
    assert_eq!(other, 20);
    let hits = root.filter(URI::new("a.b.c"));
    assert_eq!(
        hits,
        vec![(2, 21, MatchingPolicy::Prefix), (1, 10, MatchingPolicy::Strict)]
    );
}

#[test]
fn strict_subscriber_of_a_shorter_uri_is_not_reached() {
    let mut root = SubscriptionPatternNode::new();
    root.subscribe_with(&URI::new("a.b"), 3, MatchingPolicy::Strict, 30, 31);
    assert_eq!(root.filter(URI::new("a.b.c")), vec![]);
    assert_eq!(root.filter(URI::new("a")), vec![]);
    assert_eq!(root.filter(URI::new("a.b")), vec![(3, 30, MatchingPolicy::Strict)]);
}

#[test]
fn split_cuts_at_every_dot() {
    assert_eq!(parts(""), vec![""]);
    assert_eq!(parts("a"), vec!["a"]);
    assert_eq!(parts("a.b.c"), vec!["a", "b", "c"]);
    assert_eq!(parts("a..c"), vec!["a", "", "c"]);
    assert_eq!(parts(".a"), vec!["", "a"]);
    assert_eq!(parts("a."), vec!["a", ""]);
    assert_eq!(parts("."), vec!["", ""]);
    assert_eq!(parts("com.example.\u{e9}t\u{e9}"), vec!["com", "example", "\u{e9}t\u{e9}"]);
}

#[test]
fn subscribers_of_one_uri_share_its_id() {
    let mut root = SubscriptionPatternNode::new();
    assert_eq!(root.subscribe_with(&URI::new("x.y"), 1, MatchingPolicy::Strict, 7, 8), 7);
    assert_eq!(root.subscribe_with(&URI::new("x.y"), 2, MatchingPolicy::Strict, 70, 80), 7);
    assert_eq!(root.subscribe_with(&URI::new("x.y"), 3, MatchingPolicy::Wildcard, 71, 81), 7);
    assert_eq!(root.subscribe_with(&URI::new("x.y"), 4, MatchingPolicy::Prefix, 72, 82), 8);
    assert_eq!(root.subscribe_with(&URI::new("x.z"), 5, MatchingPolicy::Prefix, 73, 83), 83);
    assert_eq!(root.topic_ids("x.y"), Some((7, 8)));
    assert_eq!(root.topic_ids("x.z"), Some((73, 83)));
    assert_eq!(root.topic_ids("x"), None);
    assert_eq!(root.topic_ids("x.y.z"), None);
}

#[test]
fn wildcard_subscription_stands_for_any_component() {
    let mut root = SubscriptionPatternNode::new();
    root.subscribe_with(&URI::new("a..c"), 1, MatchingPolicy::Wildcard, 10, 11);
    root.subscribe_with(&URI::new("a.b.c"), 2, MatchingPolicy::Wildcard, 20, 21);
    root.subscribe_with(&URI::new(".."), 3, MatchingPolicy::Wildcard, 30, 31);
    assert_eq!(
        root.filter(URI::new("a.b.c")),
        vec![
            (2, 20, MatchingPolicy::Wildcard),
            (1, 10, MatchingPolicy::Wildcard),
            (3, 30, MatchingPolicy::Wildcard),
        ]
    );
    assert_eq!(
        root.filter(URI::new("a.x.c")),
        vec![(1, 10, MatchingPolicy::Wildcard), (3, 30, MatchingPolicy::Wildcard)]
    );
    assert_eq!(root.filter(URI::new("a.x")), vec![]);
    assert_eq!(root.filter(URI::new("a.b.c.d")), vec![]);
}

#[test]
fn empty_component_stands_for_itself_in_other_policies() {
    let mut root = SubscriptionPatternNode::new();
    root.subscribe_with(&URI::new("a..c"), 1, MatchingPolicy::Strict, 10, 11);
    root.subscribe_with(&URI::new("a."), 2, MatchingPolicy::Prefix, 20, 21);
    assert_eq!(root.filter(URI::new("a.b.c")), vec![]);
    assert_eq!(
        root.filter(URI::new("a..c")),
        vec![(2, 21, MatchingPolicy::Prefix), (1, 10, MatchingPolicy::Strict)]
    );
}

#[test]
fn a_uri_is_visited_once_where_the_topic_has_an_empty_component() {
    let mut root = SubscriptionPatternNode::new();
    root.subscribe_with(&URI::new("a..c"), 1, MatchingPolicy::Wildcard, 10, 11);
    assert_eq!(root.filter(URI::new("a..c")), vec![(1, 10, MatchingPolicy::Wildcard)]);
}

#[test]
fn prefix_subscriber_of_the_topic_itself_is_reached() {
    let mut root = SubscriptionPatternNode::new();
    root.subscribe_with(&URI::new("a.b"), 1, MatchingPolicy::Prefix, 10, 11);
    root.subscribe_with(&URI::new("a"), 2, MatchingPolicy::Prefix, 20, 21);
    assert_eq!(
        root.filter(URI::new("a.b")),
        vec![(2, 21, MatchingPolicy::Prefix), (1, 11, MatchingPolicy::Prefix)]
    );
    assert_eq!(root.filter(URI::new("a.c")), vec![(2, 21, MatchingPolicy::Prefix)]);
    assert_eq!(root.filter(URI::new("b")), vec![]);
}

#[test]
fn unsubscribe_takes_the_subscriber_out() {
    let mut root = SubscriptionPatternNode::new();
    root.subscribe_with(&URI::new("a.b"), 1, MatchingPolicy::Strict, 10, 11);
    root.subscribe_with(&URI::new("a.b"), 2, MatchingPolicy::Strict, 20, 21);
    root.subscribe_with(&URI::new("a.b"), 1, MatchingPolicy::Prefix, 30, 31);
    assert_eq!(root.unsubscribe_with("a.b", &1, false), Ok(()));
    assert_eq!(
        root.filter(URI::new("a.b")),
        vec![(1, 11, MatchingPolicy::Prefix), (2, 10, MatchingPolicy::Strict)]
    );
    assert_eq!(root.unsubscribe_with("a.b", &1, true), Ok(()));
    assert_eq!(root.filter(URI::new("a.b")), vec![(2, 10, MatchingPolicy::Strict)]);
    // The URI keeps its ids when its subscribers have left.
    assert_eq!(root.unsubscribe_with("a.b", &2, false), Ok(()));
    assert_eq!(root.filter(URI::new("a.b")), vec![]);
    assert_eq!(root.subscribe_with(&URI::new("a.b"), 9, MatchingPolicy::Strict, 90, 91), 10);
}

#[test]
fn unsubscribe_takes_every_subscription_of_the_connection_to_the_uri() {
    let mut root = SubscriptionPatternNode::new();
    root.subscribe_with(&URI::new("a"), 1, MatchingPolicy::Strict, 10, 11);
    root.subscribe_with(&URI::new("a"), 1, MatchingPolicy::Strict, 10, 11);
    assert_eq!(root.filter(URI::new("a")).len(), 2);
    assert_eq!(root.unsubscribe_with("a", &1, false), Ok(()));
    assert_eq!(root.filter(URI::new("a")), vec![]);
}

#[test]
fn unsubscribe_without_subscription_fails_and_changes_nothing() {
    let mut root = SubscriptionPatternNode::new();
    root.subscribe_with(&URI::new("a.b"), 1, MatchingPolicy::Strict, 10, 11);
    root.subscribe_with(&URI::new("a"), 2, MatchingPolicy::Prefix, 20, 21);
    let before = format!("{:?}", root);
    assert_eq!(root.unsubscribe_with("a.b", &7, false), Err(PatternError::NoSuchSubscription));
    assert_eq!(root.unsubscribe_with("a.b", &1, true), Err(PatternError::NoSuchSubscription));
    assert_eq!(root.unsubscribe_with("a.b.c", &1, false), Err(PatternError::NoSuchSubscription));
    assert_eq!(root.unsubscribe_with("a", &2, false), Err(PatternError::NoSuchSubscription));
    assert_eq!(root.unsubscribe_with("", &1, false), Err(PatternError::NoSuchSubscription));
    assert_eq!(format!("{:?}", root), before);
    assert_eq!(
        root.filter(URI::new("a.b")),
        vec![(2, 21, MatchingPolicy::Prefix), (1, 10, MatchingPolicy::Strict)]
    );
}

#[test]
fn empty_directory_reaches_nobody() {
    let root = SubscriptionPatternNode::new();
    assert_eq!(root.filter(URI::new("a.b")), vec![]);
    assert_eq!(root.filter(URI::new("")), vec![]);
    assert_eq!(root.topic_ids(""), None);
}

#[test]
fn filter_can_be_asked_again() {
    let mut root = SubscriptionPatternNode::new();
    root.subscribe_with(&URI::new("a"), 1, MatchingPolicy::Strict, 10, 11);
    let first = root.filter(URI::new("a"));
    let second = root.filter(URI::new("a"));
    assert_eq!(first, second);
    assert_eq!(first, vec![(1, 10, MatchingPolicy::Strict)]);
}
