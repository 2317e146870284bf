//! What holds of decoding, merging and ordering, whatever the documents and
//! the messages are.

use vstd::prelude::*;
use vstd::seq_lib::*;
use crate::aggregation::{after_page, initial, AggregationView, StepView};
use crate::deserializers::{assignee, created_by};
use crate::error::{stands_for, stands_for_optional, ParseError};
use crate::json::{named, JsonValue};
use crate::messages::{
    ascending, chronological, distinct_ids, first_index_of, holds_id, insert_by_time,
    insertion_point, merge, upsert,
};
use crate::model::{MemberView, MessageView, MessagesPageView};
use crate::query::MessagesQueryView;
use crate::time::Timestamp;

verus! {

/// Where `first_index_of` points: inside the run at the first message with
/// the id, or at the end where `holds_id` is false.
pub proof fn lemma_first_index_of_points(messages: Seq<MessageView>, id: Seq<char>)
    ensures
        0 <= first_index_of(messages, id) <= messages.len(),
        forall|j: int|
            0 <= j < first_index_of(messages, id) ==> (#[trigger] messages[j]).id != id,
        first_index_of(messages, id) < messages.len() ==> messages[first_index_of(
            messages,
            id,
        )].id == id,
        holds_id(messages, id) <==> first_index_of(messages, id) < messages.len(),
    decreases messages.len(),
{
    if messages.len() > 0 && messages[0].id != id {
        let rest = messages.drop_first();
        lemma_first_index_of_points(rest, id);
        let at = first_index_of(messages, id);
        assert forall|j: int| 0 <= j < at implies (#[trigger] messages[j]).id != id by {
            if j > 0 {
                assert(messages[j] == rest[j - 1]);
            }
        }
        if at < messages.len() {
            assert(messages[at] == rest[at - 1]);
        }
    }
    let at = first_index_of(messages, id);
    if at < messages.len() {
        assert(messages[at].id == id);
    }
}

/// A message that arrives with an id the run already holds takes the place
/// of the message with that id: the run keeps its length and every other
/// message.
pub proof fn lemma_upsert_overwrites(messages: Seq<MessageView>, message: MessageView)
    requires
        holds_id(messages, message.id),
    ensures
        upsert(messages, message).len() == messages.len(),
        upsert(messages, message)[first_index_of(messages, message.id)] == message,
        forall|j: int|
            0 <= j < messages.len() && j != first_index_of(messages, message.id) ==> upsert(
                messages,
                message,
            )[j] == #[trigger] messages[j],
{
    lemma_first_index_of_points(messages, message.id);
}

/// A message that arrives with an id the run does not hold goes to its end.
pub proof fn lemma_upsert_appends(messages: Seq<MessageView>, message: MessageView)
    requires
        !holds_id(messages, message.id),
    ensures
        upsert(messages, message) == messages.push(message),
{
    lemma_first_index_of_points(messages, message.id);
}

/// An arriving message never makes an id occur twice, and is itself in the
/// run afterwards.
pub proof fn lemma_upsert_keeps_ids_distinct(messages: Seq<MessageView>, message: MessageView)
    requires
        distinct_ids(messages),
    ensures
        distinct_ids(upsert(messages, message)),
        upsert(messages, message).contains(message),
{
    lemma_first_index_of_points(messages, message.id);
    let at = first_index_of(messages, message.id);
    let after = upsert(messages, message);
    assert(after[at] == message);
    assert forall|i: int, j: int| 0 <= i < j < after.len() implies (#[trigger] after[i]).id != (
    #[trigger] after[j]).id by {
        if at < messages.len() {
            assert(messages[i].id != messages[j].id);
            assert(after[i].id == messages[i].id);
            assert(after[j].id == messages[j].id);
        } else if j == at {
            assert(after[i] == messages[i]);
        } else {
            assert(messages[i].id != messages[j].id);
        }
    }
}

/// A message that has arrived is in the run.
pub proof fn lemma_upsert_holds(messages: Seq<MessageView>, message: MessageView)
    ensures
        upsert(messages, message).contains(message),
{
    lemma_first_index_of_points(messages, message.id);
    let at = first_index_of(messages, message.id);
    assert(upsert(messages, message)[at] == message);
}

/// A message of the run stays in it when a message with another id
/// arrives.
pub proof fn lemma_upsert_keeps_others(
    messages: Seq<MessageView>,
    message: MessageView,
    kept: MessageView,
)
    requires
        messages.contains(kept),
        kept.id != message.id,
    ensures
        upsert(messages, message).contains(kept),
{
    lemma_first_index_of_points(messages, message.id);
    let i = choose|i: int| 0 <= i < messages.len() && messages[i] == kept;
    assert(upsert(messages, message)[i] == kept);
}

/// The last write wins: a message of a page that no later message of the
/// page shares its id with is in the run once the page has arrived.
pub proof fn lemma_merge_holds_last(messages: Seq<MessageView>, page: Seq<MessageView>, k: int)
    requires
        0 <= k < page.len(),
        forall|j: int| k < j < page.len() ==> (#[trigger] page[j]).id != page[k].id,
    ensures
        merge(messages, page).contains(page[k]),
    decreases page.len(),
{
    let earlier = page.drop_last();
    if k == page.len() - 1 {
        lemma_upsert_holds(merge(messages, earlier), page.last());
    } else {
        assert forall|j: int| k < j < earlier.len() implies (#[trigger] earlier[j]).id
            != earlier[k].id by {
            assert(earlier[j] == page[j]);
        }
        lemma_merge_holds_last(messages, earlier, k);
        assert(page[page.len() - 1].id != page[k].id);
        lemma_upsert_keeps_others(merge(messages, earlier), page.last(), page[k]);
    }
}

/// A message of the run whose id no message of a page has is still in the
/// run once the page has arrived.
pub proof fn lemma_merge_keeps_untouched(
    messages: Seq<MessageView>,
    page: Seq<MessageView>,
    kept: MessageView,
)
    requires
        messages.contains(kept),
        forall|j: int| 0 <= j < page.len() ==> (#[trigger] page[j]).id != kept.id,
    ensures
        merge(messages, page).contains(kept),
    decreases page.len(),
{
    if page.len() > 0 {
        let earlier = page.drop_last();
        assert forall|j: int| 0 <= j < earlier.len() implies (#[trigger] earlier[j]).id
            != kept.id by {
            assert(earlier[j] == page[j]);
        }
        lemma_merge_keeps_untouched(messages, earlier, kept);
        assert(page[page.len() - 1].id != kept.id);
        lemma_upsert_keeps_others(merge(messages, earlier), page.last(), kept);
    }
}

/// A run without repeated ids has none after a whole page has arrived.
pub proof fn lemma_merge_keeps_ids_distinct(messages: Seq<MessageView>, page: Seq<MessageView>)
    requires
        distinct_ids(messages),
    ensures
        distinct_ids(merge(messages, page)),
    decreases page.len(),
{
    if page.len() > 0 {
        lemma_merge_keeps_ids_distinct(messages, page.drop_last());
        lemma_upsert_keeps_ids_distinct(merge(messages, page.drop_last()), page.last());
    }
}

/// Where `insertion_point` points: every message before it is strictly
/// earlier than `at`, and the message at it, if there is one, is not.
pub proof fn lemma_insertion_point_splits(sorted: Seq<MessageView>, at: Timestamp)
    ensures
        0 <= insertion_point(sorted, at) <= sorted.len(),
        forall|j: int|
            0 <= j < insertion_point(sorted, at) ==> (#[trigger] sorted[j]).created_at.before(at),
        insertion_point(sorted, at) < sorted.len() ==> at.at_or_before(
            sorted[insertion_point(sorted, at)].created_at,
        ),
    decreases sorted.len(),
{
    if sorted.len() > 0 && !at.at_or_before(sorted[0].created_at) {
        let rest = sorted.drop_first();
        lemma_insertion_point_splits(rest, at);
        let point = insertion_point(sorted, at);
        assert forall|j: int| 0 <= j < point implies (#[trigger] sorted[j]).created_at.before(
            at,
        ) by {
            if j > 0 {
                assert(sorted[j] == rest[j - 1]);
            }
        }
        if point < sorted.len() {
            assert(sorted[point] == rest[point - 1]);
        }
    }
}

/// Entering a message into a run in time order leaves the run in time order.
pub proof fn lemma_insert_by_time_ascending(sorted: Seq<MessageView>, message: MessageView)
    requires
        ascending(sorted),
    ensures
        ascending(insert_by_time(sorted, message)),
{
    lemma_insertion_point_splits(sorted, message.created_at);
    let point = insertion_point(sorted, message.created_at);
    let after = insert_by_time(sorted, message);
    sorted.insert_ensures(point, message);
    assert forall|i: int, j: int| 0 <= i < j < after.len() implies (
    #[trigger] after[i]).created_at.at_or_before((#[trigger] after[j]).created_at) by {
        if j < point {
            assert(after[i] == sorted[i] && after[j] == sorted[j]);
        } else if j == point {
            assert(after[i] == sorted[i]);
            assert(sorted[i].created_at.before(message.created_at));
        } else if i < point {
            assert(after[i] == sorted[i] && after[j] == sorted[j - 1]);
        } else if i == point {
            assert(after[j] == sorted[j - 1]);
            if j - 1 > point {
                assert(sorted[point].created_at.at_or_before(sorted[j - 1].created_at));
            }
        } else {
            assert(after[i] == sorted[i - 1] && after[j] == sorted[j - 1]);
        }
    }
}

/// The outcome of `chronological` is in ascending order of creation.
pub proof fn lemma_chronological_ascending(messages: Seq<MessageView>)
    ensures
        ascending(chronological(messages)),
    decreases messages.len(),
{
    if messages.len() > 0 {
        lemma_chronological_ascending(messages.drop_first());
        lemma_insert_by_time_ascending(chronological(messages.drop_first()), messages[0]);
    }
}

/// `chronological` only reorders: each message comes out as often as it
/// went in.
pub proof fn lemma_chronological_permutes(messages: Seq<MessageView>)
    ensures
        chronological(messages).to_multiset() == messages.to_multiset(),
        chronological(messages).len() == messages.len(),
    decreases messages.len(),
{
    if messages.len() > 0 {
        let rest = messages.drop_first();
        let sorted = chronological(rest);
        lemma_chronological_permutes(rest);
        lemma_insertion_point_splits(sorted, messages[0].created_at);
        to_multiset_insert(sorted, insertion_point(sorted, messages[0].created_at), messages[0]);
        to_multiset_insert(rest, 0, messages[0]);
        assert(rest.insert(0, messages[0]) =~= messages);
    } else {
        assert(chronological(messages) =~= messages);
    }
}

/// `chronological` is stable: the messages created at any one instant come
/// out in the order in which they went in.
pub proof fn lemma_chronological_stable(messages: Seq<MessageView>, at: Timestamp)
    ensures
        chronological(messages).filter(|m: MessageView| m.created_at == at) == messages.filter(
            |m: MessageView| m.created_at == at,
        ),
    decreases messages.len(),
{
    let created_then = |m: MessageView| m.created_at == at;
    if messages.len() == 0 {
        assert(chronological(messages) =~= messages);
    } else {
        let rest = messages.drop_first();
        let first = messages[0];
        let sorted = chronological(rest);
        lemma_chronological_stable(rest, at);
        lemma_insertion_point_splits(sorted, first.created_at);
        let point = insertion_point(sorted, first.created_at);
        let ahead = sorted.subrange(0, point);
        let behind = sorted.subrange(point, sorted.len() as int);
        assert(sorted =~= ahead + behind);
        Seq::filter_distributes_over_add(ahead, behind, created_then);
        Seq::filter_distributes_over_add(ahead.push(first), behind, created_then);
        ahead.lemma_filter_push(first, created_then);
        rest.lemma_filter_prepend(first, created_then);
        assert(seq![first] + rest =~= messages);
        if first.created_at == at {
            assert forall|k: int| 0 <= k < ahead.len() implies !created_then(
                #[trigger] ahead[k],
            ) by {
                assert(ahead[k] == sorted[k]);
            }
            ahead.lemma_all_neg_filter_empty(created_then);
            assert(ahead.filter(created_then) =~= Seq::<MessageView>::empty());
            assert(chronological(messages).filter(created_then) =~= seq![first] + sorted.filter(
                created_then,
            ));
        }
    }
}

/// Messages that are already in ascending order of creation come out of
/// `chronological` unchanged.
pub proof fn lemma_chronological_of_ascending(messages: Seq<MessageView>)
    requires
        ascending(messages),
    ensures
        chronological(messages) == messages,
    decreases messages.len(),
{
    if messages.len() > 0 {
        let rest = messages.drop_first();
        assert forall|i: int, j: int| 0 <= i < j < rest.len() implies (
        #[trigger] rest[i]).created_at.at_or_before((#[trigger] rest[j]).created_at) by {
            assert(rest[i] == messages[i + 1] && rest[j] == messages[j + 1]);
        }
        lemma_chronological_of_ascending(rest);
        if rest.len() > 0 {
            assert(rest[0] == messages[1]);
            assert(messages[0].created_at.at_or_before(messages[1].created_at));
        }
        assert(insertion_point(rest, messages[0].created_at) == 0);
        assert(rest.insert(0, messages[0]) =~= messages);
    } else {
        assert(chronological(messages) =~= messages);
    }
}

/// Ordering a run without repeated ids gives a run without repeated ids.
pub proof fn lemma_chronological_keeps_ids_distinct(messages: Seq<MessageView>)
    requires
        distinct_ids(messages),
    ensures
        distinct_ids(chronological(messages)),
    decreases messages.len(),
{
    if messages.len() > 0 {
        let rest = messages.drop_first();
        let first = messages[0];
        let sorted = chronological(rest);
        assert forall|i: int, j: int| 0 <= i < j < rest.len() implies (#[trigger] rest[i]).id != (
        #[trigger] rest[j]).id by {
            assert(rest[i] == messages[i + 1] && rest[j] == messages[j + 1]);
        }
        lemma_chronological_keeps_ids_distinct(rest);
        lemma_chronological_permutes(rest);
        lemma_insertion_point_splits(sorted, first.created_at);
        let point = insertion_point(sorted, first.created_at);
        let after = sorted.insert(point, first);
        sorted.insert_ensures(point, first);
        assert forall|k: int| 0 <= k < sorted.len() implies (#[trigger] sorted[k]).id
            != first.id by {
            to_multiset_contains(sorted, sorted[k]);
            to_multiset_contains(rest, sorted[k]);
            assert(sorted.contains(sorted[k]));
            let n = choose|n: int| 0 <= n < rest.len() && rest[n] == sorted[k];
            assert(rest[n] == messages[n + 1]);
            assert(messages[0].id != messages[n + 1].id);
        }
        assert forall|i: int, j: int| 0 <= i < j < after.len() implies (#[trigger] after[i]).id
            != (#[trigger] after[j]).id by {
            if j < point {
                assert(after[i] == sorted[i] && after[j] == sorted[j]);
            } else if j == point {
                assert(after[i] == sorted[i]);
            } else if i < point {
                assert(after[i] == sorted[i] && after[j] == sorted[j - 1]);
            } else if i == point {
                assert(after[j] == sorted[j - 1]);
            } else {
                assert(after[i] == sorted[i - 1] && after[j] == sorted[j - 1]);
            }
        }
    }
}

/// A page without messages ends an aggregation with the messages so far,
/// whether or not the page names a cursor.
pub proof fn lemma_empty_page_ends(state: AggregationView, page: MessagesPageView)
    requires
        page.messages.len() == 0,
    ensures
        after_page(state, page) == StepView::Done(chronological(state.messages)),
        state.messages.len() == 0 ==> after_page(state, page) == StepView::Done(
            Seq::<MessageView>::empty(),
        ),
{
}

/// A first page without repeated ids is taken as it is.
pub proof fn lemma_merge_into_nothing(page: Seq<MessageView>)
    requires
        distinct_ids(page),
    ensures
        merge(Seq::empty(), page) == page,
    decreases page.len(),
{
    if page.len() > 0 {
        let earlier = page.drop_last();
        assert forall|i: int, j: int| 0 <= i < j < earlier.len() implies (
        #[trigger] earlier[i]).id != (#[trigger] earlier[j]).id by {
            assert(earlier[i] == page[i] && earlier[j] == page[j]);
        }
        lemma_merge_into_nothing(earlier);
        assert(!holds_id(earlier, page.last().id)) by {
            if holds_id(earlier, page.last().id) {
                let i = choose|i: int|
                    0 <= i < earlier.len() && (#[trigger] earlier[i]).id == page.last().id;
                assert(earlier[i] == page[i]);
                assert(page[i].id != page[page.len() - 1].id);
            }
        }
        lemma_upsert_appends(earlier, page.last());
        assert(earlier.push(page.last()) =~= page);
    } else {
        assert(merge(Seq::empty(), page) =~= page);
    }
}

/// An aggregation whose only page is in ascending order of creation, has no
/// id twice and names no cursor gives the messages of that page as they
/// came.
pub proof fn lemma_single_ascending_page(query: MessagesQueryView, page: MessagesPageView)
    requires
        page.messages.len() > 0,
        page.next_start_from_date is None,
        distinct_ids(page.messages),
        ascending(page.messages),
    ensures
        after_page(initial(query), page) == StepView::Done(page.messages),
{
    lemma_merge_into_nothing(page.messages);
    lemma_chronological_of_ascending(page.messages);
}

/// A first page with messages and a cursor, followed by a page without
/// messages: the second request carries the cursor of the first page and
/// nothing else is changed in the query, and the aggregation ends after it
/// with the messages of the first page, oldest first.
pub proof fn lemma_page_then_empty_page(
    query: MessagesQueryView,
    first: MessagesPageView,
    second: MessagesPageView,
)
    requires
        first.messages.len() > 0,
        first.next_start_from_date is Some,
        distinct_ids(first.messages),
        second.messages.len() == 0,
    ensures
        after_page(initial(query), first) is Fetch,
        after_page(initial(query), first)->Fetch_0.query == (MessagesQueryView {
            start_from_date: first.next_start_from_date,
            ..query
        }),
        after_page(after_page(initial(query), first)->Fetch_0, second) == StepView::Done(
            chronological(first.messages),
        ),
        ascending(chronological(first.messages)),
        chronological(first.messages).to_multiset() == first.messages.to_multiset(),
{
    lemma_merge_into_nothing(first.messages);
    lemma_chronological_ascending(first.messages);
    lemma_chronological_permutes(first.messages);
}

/// Decoding is a function of the document: two outcomes that stand for the
/// same expectation are the same error or records with the same view.
pub proof fn lemma_decoding_repeats<T: View>(
    first: Result<T, ParseError>,
    second: Result<T, ParseError>,
    expected: Result<T::V, ParseError>,
)
    requires
        stands_for(first, expected),
        stands_for(second, expected),
    ensures
        match (first, second) {
            (Ok(a), Ok(b)) => a@ == b@,
            (Err(e), Err(f)) => e == f,
            _ => false,
        },
{
}

/// As `lemma_decoding_repeats`, for a decoder that may find no record.
pub proof fn lemma_optional_decoding_repeats<T: View>(
    first: Result<Option<T>, ParseError>,
    second: Result<Option<T>, ParseError>,
    expected: Result<Option<T::V>, ParseError>,
)
    requires
        stands_for_optional(first, expected),
        stands_for_optional(second, expected),
    ensures
        match (first, second) {
            (Ok(Some(a)), Ok(Some(b))) => a@ == b@,
            (Ok(None), Ok(None)) => true,
            (Err(e), Err(f)) => e == f,
            _ => false,
        },
{
}

/// A creator with a name and with details that lead to a user id is the
/// member with that id and that name.
pub proof fn lemma_creator_with_details(
    raw: JsonValue,
    name: Seq<char>,
    details: JsonValue,
    user: JsonValue,
    user_id: Seq<char>,
)
    requires
        raw.required_text("name"@) == Ok::<_, ParseError>(name),
        raw.optional("details"@) == Ok::<_, ParseError>(Some(details)),
        details.required("user"@) == Ok::<_, ParseError>(user),
        user.required_text("id"@) == Ok::<_, ParseError>(user_id),
    ensures
        created_by(raw) == Ok::<_, ParseError>(MemberView { id: user_id, username: name }),
{
}

/// A creator with a name and without details, left out or `null`, is the
/// member with the id `"deleted"` and that name.
pub proof fn lemma_creator_without_details(raw: JsonValue, name: Seq<char>)
    requires
        raw.required_text("name"@) == Ok::<_, ParseError>(name),
        raw.optional("details"@) == Ok::<Option<JsonValue>, ParseError>(None),
    ensures
        created_by(raw) == Ok::<_, ParseError>(MemberView { id: "deleted"@, username: name }),
{
}

/// `null` assigns nobody.
pub proof fn lemma_assignee_of_null()
    ensures
        assignee(JsonValue::Null) == Ok::<Option<MemberView>, ParseError>(None),
{
}

/// An object with an `id` and a `username` assigns the member with both.
pub proof fn lemma_assignee_of_object(raw: JsonValue, id: Seq<char>, username: Seq<char>)
    requires
        raw.required_text("id"@) == Ok::<_, ParseError>(id),
        raw.required_text("username"@) == Ok::<_, ParseError>(username),
    ensures
        assignee(raw) == Ok::<_, ParseError>(Some(MemberView { id, username })),
{
}

/// A member under another key, wherever in the object it stands, does not
/// change what a key leads to.
pub proof fn lemma_member_skips_other_keys(
    members: Seq<(Seq<char>, JsonValue)>,
    at: int,
    extra: (Seq<char>, JsonValue),
    key: Seq<char>,
)
    requires
        0 <= at <= members.len(),
        extra.0 != key,
    ensures
        JsonValue::Object(members.insert(at, extra)).member(key) == JsonValue::Object(
            members,
        ).member(key),
{
    let ahead = members.subrange(0, at);
    let behind = members.subrange(at, members.len() as int);
    assert(members =~= ahead + behind);
    Seq::filter_distributes_over_add(ahead, behind, named(key));
    Seq::filter_distributes_over_add(ahead.push(extra), behind, named(key));
    ahead.lemma_filter_push(extra, named(key));
}

/// The assignee that an object stands for does not depend on members other
/// than `id` and `username`.
pub proof fn lemma_assignee_ignores_extras(
    members: Seq<(Seq<char>, JsonValue)>,
    at: int,
    extra: (Seq<char>, JsonValue),
)
    requires
        0 <= at <= members.len(),
        extra.0 != "id"@,
        extra.0 != "username"@,
    ensures
        assignee(JsonValue::Object(members.insert(at, extra))) == assignee(
            JsonValue::Object(members),
        ),
{
    lemma_member_skips_other_keys(members, at, extra, "id"@);
    lemma_member_skips_other_keys(members, at, extra, "username"@);
}

} // verus!
