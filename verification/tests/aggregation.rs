use space::aggregation::{Aggregation, Step};
use space::error::{Error, ParseError, TransportError};
use space::json::Json;
use space::model::{Member, Message, MessagesApiResponse};
use space::query::MessagesQuery;
use space::time::Timestamp;

fn at(secs: i64) -> Timestamp {
    Timestamp { secs, nanos: 0 }
}

fn message(id: &str, text: &str, created_at: Timestamp) -> Message {
    Message {
        id: id.to_string(),
        text: text.to_string(),
        author: Member { id: "u1".to_string(), username: "tester".to_string() },
        created_at,
    }
}

fn page(messages: Vec<Message>, next: Option<Timestamp>) -> MessagesApiResponse {
    MessagesApiResponse { messages, next_start_from_date: next }
}

fn ids(messages: &[Message]) -> Vec<&str> {
    messages.iter().map(|m| m.id.as_str()).collect()
}

/// Plays the pages to an aggregation, one per request, and gives the
/// messages together with the cursor that each request carried.
fn aggregate(pages: Vec<MessagesApiResponse>) -> (Vec<Message>, Vec<Option<Timestamp>>) {
    let mut cursors = Vec::new();
    let mut pages = pages.into_iter();
    let mut state = Aggregation::start(MessagesQuery::new("issue-1"));
    loop {
        cursors.push(state.query().start_from_date);
        let page = pages.next().expect("a request beyond the last page");
        match state.on_page(page) {
            Step::Fetch(next) => state = next,
            Step::Done(messages) => return (messages, cursors),
        }
    }
}

#[test]
fn five_messages_then_an_empty_page_take_two_requests() {
    let first = page(
        vec![
            message("m5", "e", at(50)),
            message("m4", "d", at(40)),
            message("m3", "c", at(30)),
            message("m2", "b", at(20)),
            message("m1", "a", at(10)),
        ],
        Some(at(10)),
    );
    let second = page(vec![], None);

    let (messages, cursors) = aggregate(vec![first, second]);

    assert_eq!(cursors, vec![None, Some(at(10))]);
    assert_eq!(ids(&messages), vec!["m1", "m2", "m3", "m4", "m5"]);
    assert!(messages.windows(2).all(|w| w[0].created_at <= w[1].created_at));
}

#[test]
fn an_empty_first_page_takes_one_request() {
    let (messages, cursors) = aggregate(vec![page(vec![], None)]);
    assert_eq!(cursors, vec![None]);
    assert!(messages.is_empty());
}

#[test]
fn the_cursor_of_an_empty_page_is_dropped() {
    let (messages, cursors) = aggregate(vec![page(vec![], Some(at(99)))]);
    assert_eq!(cursors, vec![None]);
    assert!(messages.is_empty());

    let (messages, cursors) = aggregate(vec![
        page(vec![message("m1", "a", at(10))], Some(at(10))),
        page(vec![], Some(at(5))),
    ]);
    assert_eq!(cursors, vec![None, Some(at(10))]);
    assert_eq!(ids(&messages), vec!["m1"]);
}

#[test]
fn a_sorted_single_page_comes_back_unchanged() {
    let sent = vec![
        message("m1", "a", at(1)),
        message("m2", "b", at(2)),
        message("m3", "c", at(3)),
        message("m4", "d", at(4)),
        message("m5", "e", at(5)),
    ];
    let (messages, cursors) = aggregate(vec![page(sent.clone(), None)]);
    assert_eq!(cursors.len(), 1);
    assert_eq!(messages, sent);
}

#[test]
fn a_repeated_id_overwrites_the_earlier_message() {
    let (messages, cursors) = aggregate(vec![
        page(vec![message("m2", "second", at(20)), message("m1", "first", at(10))], Some(at(10))),
        page(vec![message("m1", "first, edited", at(10)), message("m0", "zeroth", at(5))], None),
    ]);
    assert_eq!(cursors, vec![None, Some(at(10))]);
    assert_eq!(ids(&messages), vec!["m0", "m1", "m2"]);
    assert_eq!(messages[1].text, "first, edited");
}

#[test]
fn a_repeated_id_within_one_page_keeps_the_later_message() {
    let (messages, _) = aggregate(vec![page(
        vec![message("m1", "old", at(10)), message("m1", "new", at(30)), message("m2", "x", at(20))],
        None,
    )]);
    assert_eq!(ids(&messages), vec!["m2", "m1"]);
    assert_eq!(messages[1].text, "new");
}

#[test]
fn messages_of_one_instant_keep_their_order_of_arrival() {
    let (messages, _) = aggregate(vec![
        page(vec![message("b", "", at(7)), message("z", "", at(9)), message("a", "", at(7))], Some(at(7))),
        page(vec![message("c", "", at(7)), message("y", "", at(1))], None),
    ]);
    assert_eq!(ids(&messages), vec!["y", "b", "a", "c", "z"]);
}

#[test]
fn nanoseconds_decide_within_a_second() {
    let early = Timestamp { secs: 100, nanos: 648_000_000 };
    let late = Timestamp { secs: 100, nanos: 649_000_000 };
    let (messages, _) =
        aggregate(vec![page(vec![message("late", "", late), message("early", "", early)], None)]);
    assert_eq!(ids(&messages), vec!["early", "late"]);
}

#[test]
fn three_pages_take_three_requests() {
    let (messages, cursors) = aggregate(vec![
        page(vec![message("m6", "", at(60)), message("m5", "", at(50))], Some(at(50))),
        page(vec![message("m4", "", at(40)), message("m3", "", at(30))], Some(at(30))),
        page(vec![message("m2", "", at(20)), message("m1", "", at(10))], None),
    ]);
    assert_eq!(cursors, vec![None, Some(at(50)), Some(at(30))]);
    assert_eq!(ids(&messages), vec!["m1", "m2", "m3", "m4", "m5", "m6"]);
}

#[test]
fn the_first_request_carries_no_cursor() {
    let mut query = MessagesQuery::new("issue-1");
    query.start_from_date = Some(at(77));
    let state = Aggregation::start(query);
    assert_eq!(state.query().start_from_date, None);
    assert_eq!(state.query().channel, "issue:id:issue-1");
    assert_eq!(state.query().batch_size, 50);
}

#[test]
fn only_the_cursor_of_the_query_changes() {
    let state = Aggregation::start(MessagesQuery::new("issue-1"));
    let before = state.query().clone();
    match state.on_page(page(vec![message("m1", "", at(10))], Some(at(10)))) {
        Step::Fetch(next) => {
            let mut expected = before;
            expected.start_from_date = Some(at(10));
            assert_eq!(next.query(), &expected);
        }
        Step::Done(_) => panic!("the page named a cursor"),
    }
}

fn text(value: &str) -> Json {
    Json::Text(value.to_string())
}

fn object(members: Vec<(&str, Json)>) -> Json {
    Json::Object(members.into_iter().map(|(key, value)| (key.to_string(), value)).collect())
}

fn raw_message(id: &str, iso: &str) -> Json {
    object(vec![
        ("id", text(id)),
        ("text", text("hello")),
        ("author", object(vec![("name", text("tester"))])),
        ("created", object(vec![("iso", text(iso))])),
    ])
}

#[test]
fn a_transport_failure_ends_the_aggregation() {
    let state = Aggregation::start(MessagesQuery::new("issue-1"));
    let first = object(vec![
        ("messages", Json::List(vec![raw_message("m1", "2025-05-28T15:09:34.648Z")])),
        ("nextStartFromDate", object(vec![("iso", text("2025-05-28T15:09:34.648Z"))])),
    ]);
    let state = match state.on_response(Ok(first)) {
        Ok(Step::Fetch(next)) => next,
        _ => panic!("the page named a cursor"),
    };
    assert_eq!(
        state.query().start_from_date,
        Some(Timestamp { secs: 1_748_444_974, nanos: 648_000_000 })
    );
    match state.on_response(Err(TransportError::Status(502))) {
        Err(e) => assert_eq!(e, Error::Transport(TransportError::Status(502))),
        Ok(_) => panic!("a failed request gave a step"),
    }
}

#[test]
fn a_body_that_is_no_page_ends_the_aggregation() {
    let state = Aggregation::start(MessagesQuery::new("issue-1"));
    let broken = object(vec![("messages", Json::List(vec![object(vec![("id", text("m1"))])]))]);
    match state.on_response(Ok(broken)) {
        Err(e) => assert_eq!(e, Error::Parse(ParseError::MissingField)),
        Ok(_) => panic!("a broken body gave a step"),
    }

    let state = Aggregation::start(MessagesQuery::new("issue-1"));
    match state.on_response(Ok(object(vec![("error", text("Issue not found"))]))) {
        Err(e) => assert_eq!(e, Error::Parse(ParseError::MissingField)),
        Ok(_) => panic!("a broken body gave a step"),
    }
}

#[test]
fn a_body_is_decoded_and_merged() {
    let state = Aggregation::start(MessagesQuery::new("issue-1"));
    let body = object(vec![
        (
            "messages",
            Json::List(vec![
                raw_message("m2", "2025-05-28T15:09:34.649Z"),
                raw_message("m1", "2025-05-28T15:09:34.648Z"),
            ]),
        ),
        ("nextStartFromDate", Json::Null),
    ]);
    match state.on_response(Ok(body)) {
        Ok(Step::Done(messages)) => {
            assert_eq!(ids(&messages), vec!["m1", "m2"]);
            assert_eq!(messages[0].author.id, "deleted");
        }
        _ => panic!("the page named no cursor"),
    }
}
