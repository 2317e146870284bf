//! The page-by-page fetch of a channel's messages, as a state machine.
//!
//! The caller sends the request that the state names and hands the response
//! back; the state either names the next request or gives the messages. No
//! messages come out before the last page is in, and none after a failure.

use vstd::prelude::*;
use crate::deserializers::{deserialize_messages_response, messages_response};
use crate::error::{Error, ParseError, TransportError};
use crate::json::{Json, JsonValue};
use crate::laws::{
    lemma_chronological_ascending, lemma_chronological_keeps_ids_distinct,
    lemma_merge_keeps_ids_distinct,
};
use crate::messages::{
    ascending, chronological, distinct_ids, merge, put_page, sort_chronologically,
};
use crate::model::{message_views, Message, MessageView, MessagesApiResponse, MessagesPageView};
use crate::query::{MessagesQuery, MessagesQueryView};
use crate::time::Timestamp;

verus! {

/// An aggregation that waits for a page: the query to send for it, and the
/// messages of the pages before it.
#[derive(Debug, PartialEq, Eq)]
pub struct Aggregation {
    query: MessagesQuery,
    messages: Vec<Message>,
}

pub ghost struct AggregationView {
    pub query: MessagesQueryView,
    pub messages: Seq<MessageView>,
}

impl View for Aggregation {
    type V = AggregationView;

    closed spec fn view(&self) -> AggregationView {
        AggregationView { query: self.query@, messages: message_views(self.messages@) }
    }
}

/// What an aggregation does after a page.
#[derive(Debug, PartialEq, Eq)]
pub enum Step {
    /// One more page is to be fetched, with the query of this state.
    Fetch(Aggregation),
    /// All pages are in: the messages, oldest first.
    Done(Vec<Message>),
}

pub ghost enum StepView {
    Fetch(AggregationView),
    Done(Seq<MessageView>),
}

impl View for Step {
    type V = StepView;

    open spec fn view(&self) -> StepView {
        match self {
            Step::Fetch(state) => StepView::Fetch(state@),
            Step::Done(messages) => StepView::Done(message_views(messages@)),
        }
    }
}

/// `query` with its cursor replaced.
pub open spec fn with_cursor(
    query: MessagesQueryView,
    cursor: Option<Timestamp>,
) -> MessagesQueryView {
    MessagesQueryView { start_from_date: cursor, ..query }
}

/// The state before the first page: no cursor, no messages.
pub open spec fn initial(query: MessagesQueryView) -> AggregationView {
    AggregationView { query: with_cursor(query, None), messages: Seq::empty() }
}

/// The step that follows a page.
///
/// A page without messages ends the aggregation, whatever cursor it names.
/// Any other page is merged into the messages so far; its cursor, if it
/// names one, is the cursor of the next request, and without one the
/// aggregation ends.
pub open spec fn after_page(state: AggregationView, page: MessagesPageView) -> StepView {
    if page.messages.len() == 0 {
        StepView::Done(chronological(state.messages))
    } else {
        let merged = merge(state.messages, page.messages);
        match page.next_start_from_date {
            Some(cursor) => StepView::Fetch(
                AggregationView { query: with_cursor(state.query, Some(cursor)), messages: merged },
            ),
            None => StepView::Done(chronological(merged)),
        }
    }
}

/// The step that follows the body of a response, or the reason for which
/// the body is no page.
pub open spec fn after_body(state: AggregationView, body: JsonValue) -> Result<
    StepView,
    ParseError,
> {
    match messages_response(body) {
        Ok(page) => Ok(after_page(state, page)),
        Err(e) => Err(e),
    }
}

impl Aggregation {
    #[verifier::type_invariant]
    spec fn no_id_twice(self) -> bool {
        distinct_ids(message_views(self.messages@))
    }

    /// Begins an aggregation with `query`. The first request carries no
    /// cursor, so that the newest messages come first.
    pub fn start(query: MessagesQuery) -> (state: Aggregation)
        ensures
            state@ == initial(query@),
    {
        let mut query = query;
        query.start_from_date = None;
        let state = Aggregation { query, messages: Vec::new() };
        assert(message_views(state.messages@) =~= Seq::<MessageView>::empty());
        state
    }

    /// The query of the request to send next.
    pub fn query(&self) -> (query: &MessagesQuery)
        ensures
            query@ == self@.query,
    {
        &self.query
    }

    /// Takes the page that came back for `query()`.
    pub fn on_page(self, page: MessagesApiResponse) -> (step: Step)
        ensures
            step@ == after_page(self@, page@),
            match step {
                Step::Fetch(next) => distinct_ids(next@.messages),
                Step::Done(messages) => distinct_ids(message_views(messages@)) && ascending(
                    message_views(messages@),
                ),
            },
    {
        proof {
            use_type_invariant(&self);
        }
        let Aggregation { query, messages } = self;
        let MessagesApiResponse { messages: arrived, next_start_from_date } = page;
        let mut query = query;
        let mut messages = messages;
        if arrived.len() == 0 {
            proof {
                lemma_chronological_keeps_ids_distinct(message_views(messages@));
                lemma_chronological_ascending(message_views(messages@));
            }
            return Step::Done(sort_chronologically(messages));
        }
        proof {
            lemma_merge_keeps_ids_distinct(message_views(messages@), message_views(arrived@));
        }
        put_page(&mut messages, arrived);
        match next_start_from_date {
            Some(cursor) => {
                query.start_from_date = Some(cursor);
                Step::Fetch(Aggregation { query, messages })
            },
            None => {
                proof {
                    lemma_chronological_keeps_ids_distinct(message_views(messages@));
                    lemma_chronological_ascending(message_views(messages@));
                }
                Step::Done(sort_chronologically(messages))
            },
        }
    }

    /// Takes what came back for `query()`: the body of the response, or the
    /// reason for which there is none. A failure of either kind ends the
    /// aggregation, and the messages of the pages before it are dropped.
    pub fn on_response(self, outcome: Result<Json, TransportError>) -> (step: Result<Step, Error>)
        ensures
            match outcome {
                Ok(body) => match step {
                    Ok(next) => after_body(self@, body@) == Ok::<_, ParseError>(next@),
                    Err(Error::Parse(e)) => after_body(self@, body@) == Err::<StepView, _>(e),
                    Err(Error::Transport(_)) => false,
                },
                Err(failure) => step == Err::<Step, _>(Error::Transport(failure)),
            },
    {
        match outcome {
            Ok(body) => match deserialize_messages_response(&body) {
                Ok(page) => Ok(self.on_page(page)),
                Err(e) => Err(Error::Parse(e)),
            },
            Err(failure) => Err(Error::Transport(failure)),
        }
    }
}

} // verus!
