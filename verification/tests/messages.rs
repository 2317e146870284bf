use space::messages::{put_message, put_page, sort_chronologically};
use space::model::{Member, Message};
use space::time::Timestamp;

fn message(id: &str, text: &str, secs: i64, nanos: u32) -> Message {
    Message {
        id: id.to_string(),
        text: text.to_string(),
        author: Member { id: "u1".to_string(), username: "tester".to_string() },
        created_at: Timestamp { secs, nanos },
    }
}

fn ids(messages: &[Message]) -> Vec<&str> {
    messages.iter().map(|m| m.id.as_str()).collect()
}

#[test]
fn put_message_appends_a_new_id() {
    let mut messages = vec![message("a", "1", 5, 0)];
    put_message(&mut messages, message("b", "2", 1, 0));
    assert_eq!(messages, vec![message("a", "1", 5, 0), message("b", "2", 1, 0)]);
}

#[test]
fn put_message_overwrites_in_place() {
    let mut messages =
        vec![message("a", "1", 5, 0), message("b", "2", 6, 0), message("c", "3", 7, 0)];
    put_message(&mut messages, message("b", "two", 1, 0));
    assert_eq!(
        messages,
        vec![message("a", "1", 5, 0), message("b", "two", 1, 0), message("c", "3", 7, 0)]
    );
}

#[test]
fn put_message_into_nothing() {
    let mut messages = Vec::new();
    put_message(&mut messages, message("a", "1", 5, 0));
    assert_eq!(messages, vec![message("a", "1", 5, 0)]);
}

#[test]
fn put_page_merges_in_page_order() {
    let mut messages = vec![message("a", "1", 5, 0), message("b", "2", 6, 0)];
    put_page(
        &mut messages,
        vec![message("c", "3", 1, 0), message("a", "one", 2, 0), message("c", "three", 3, 0)],
    );
    assert_eq!(
        messages,
        vec![message("a", "one", 2, 0), message("b", "2", 6, 0), message("c", "three", 3, 0)]
    );
}

#[test]
fn put_page_of_nothing_changes_nothing() {
    let mut messages = vec![message("a", "1", 5, 0)];
    put_page(&mut messages, Vec::new());
    assert_eq!(messages, vec![message("a", "1", 5, 0)]);
}

#[test]
fn sort_orders_by_seconds_then_nanoseconds() {
    let sorted = sort_chronologically(vec![
        message("d", "", 2, 0),
        message("b", "", 1, 5),
        message("e", "", 2, 1),
        message("a", "", -3, 999_999_999),
        message("c", "", 1, 6),
    ]);
    assert_eq!(ids(&sorted), vec!["a", "b", "c", "d", "e"]);
}

#[test]
fn sort_is_stable() {
    let sorted = sort_chronologically(vec![
        message("x", "", 2, 0),
        message("q", "", 1, 0),
        message("p", "", 1, 0),
        message("w", "", 2, 0),
        message("r", "", 1, 0),
    ]);
    assert_eq!(ids(&sorted), vec!["q", "p", "r", "x", "w"]);
}

#[test]
fn sort_only_reorders() {
    let sent = vec![
        message("c", "3", 3, 0),
        message("a", "1", 1, 0),
        message("b", "2", 2, 0),
        message("a", "1", 1, 0),
    ];
    let sorted = sort_chronologically(sent.clone());
    assert_eq!(sorted.len(), sent.len());
    for m in &sent {
        assert_eq!(
            sorted.iter().filter(|s| *s == m).count(),
            sent.iter().filter(|s| *s == m).count()
        );
    }
}

#[test]
fn sort_of_nothing_and_of_one() {
    assert!(sort_chronologically(Vec::new()).is_empty());
    assert_eq!(sort_chronologically(vec![message("a", "", 1, 0)]), vec![message("a", "", 1, 0)]);
}

#[test]
fn sort_leaves_ascending_messages_alone() {
    let sent = vec![message("a", "", 1, 0), message("b", "", 1, 0), message("c", "", 2, 0)];
    assert_eq!(sort_chronologically(sent.clone()), sent);
}

#[test]
fn is_before_is_strict() {
    let a = Timestamp { secs: 1, nanos: 5 };
    let b = Timestamp { secs: 1, nanos: 6 };
    let c = Timestamp { secs: 2, nanos: 0 };
    assert!(a.is_before(&b));
    assert!(b.is_before(&c));
    assert!(a.is_before(&c));
    assert!(!b.is_before(&a));
    assert!(!a.is_before(&a));
    assert!(Timestamp { secs: -1, nanos: 999_999_999 }.is_before(&Timestamp { secs: 0, nanos: 0 }));
}
