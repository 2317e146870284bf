//! Gathering the messages of a channel, page by page, into one list without
//! repeated ids, oldest first.

use vstd::prelude::*;
use crate::laws::{lemma_chronological_ascending, lemma_chronological_permutes};
use crate::model::{message_views, Message, MessageView};
use crate::time::Timestamp;

verus! {

/// The position of the first message with this id, or the length of the run
/// where no message has it.
pub open spec fn first_index_of(messages: Seq<MessageView>, id: Seq<char>) -> int
    decreases messages.len(),
{
    if messages.len() == 0 {
        0
    } else if messages[0].id == id {
        0
    } else {
        1 + first_index_of(messages.drop_first(), id)
    }
}

/// No two messages of the run share an id.
pub open spec fn distinct_ids(messages: Seq<MessageView>) -> bool {
    forall|i: int, j: int|
        0 <= i < j < messages.len() ==> (#[trigger] messages[i]).id != (#[trigger] messages[j]).id
}

/// Some message of the run has this id.
pub open spec fn holds_id(messages: Seq<MessageView>, id: Seq<char>) -> bool {
    exists|i: int| 0 <= i < messages.len() && (#[trigger] messages[i]).id == id
}

/// The run after `message` has arrived: it takes the place of the first
/// message with its id, or goes to the end where there is none.
pub open spec fn upsert(messages: Seq<MessageView>, message: MessageView) -> Seq<MessageView> {
    let at = first_index_of(messages, message.id);
    if at < messages.len() {
        messages.update(at, message)
    } else {
        messages.push(message)
    }
}

/// The run after every message of `page` has arrived, in page order.
pub open spec fn merge(messages: Seq<MessageView>, page: Seq<MessageView>) -> Seq<MessageView> {
    page.fold_left(messages, |so_far: Seq<MessageView>, m: MessageView| upsert(so_far, m))
}

/// `first_index_of` is the one position whose message has the id while none
/// before it does; it is the length where no message has the id.
pub proof fn lemma_first_index_of(messages: Seq<MessageView>, id: Seq<char>, at: int)
    requires
        0 <= at <= messages.len(),
        forall|j: int| 0 <= j < at ==> (#[trigger] messages[j]).id != id,
        at < messages.len() ==> messages[at].id == id,
    ensures
        first_index_of(messages, id) == at,
    decreases messages.len(),
{
    if messages.len() > 0 && messages[0].id != id {
        let rest = messages.drop_first();
        assert forall|j: int| 0 <= j < at - 1 implies (#[trigger] rest[j]).id != id by {
            assert(rest[j] == messages[j + 1]);
        }
        lemma_first_index_of(rest, id, at - 1);
    }
}

/// Puts `message` into `messages`: over the first message with its id, else
/// at the end.
pub fn put_message(messages: &mut Vec<Message>, message: Message)
    ensures
        message_views(final(messages)@) == upsert(message_views(old(messages)@), message@),
{
    let ghost before = message_views(messages@);
    let mut i: usize = 0;
    while i < messages.len()
        invariant
            i <= messages.len(),
            before == message_views(messages@),
            before == message_views(old(messages)@),
            forall|j: int| 0 <= j < i ==> (#[trigger] before[j]).id != message.id@,
        decreases messages.len() - i,
    {
        if messages[i].id == message.id {
            proof {
                lemma_first_index_of(before, message.id@, i as int);
            }
            messages.set(i, message);
            assert(message_views(messages@) =~= before.update(i as int, message@));
            return ;
        }
        i += 1;
    }
    proof {
        lemma_first_index_of(before, message.id@, before.len() as int);
    }
    messages.push(message);
    assert(message_views(messages@) =~= before.push(message@));
}

/// The position at which a message created at `at` enters a run that is in
/// time order: behind every message that is strictly earlier, and so ahead
/// of those created at the same instant.
pub open spec fn insertion_point(sorted: Seq<MessageView>, at: Timestamp) -> int
    decreases sorted.len(),
{
    if sorted.len() == 0 {
        0
    } else if at.at_or_before(sorted[0].created_at) {
        0
    } else {
        1 + insertion_point(sorted.drop_first(), at)
    }
}

/// `sorted` with `message` entered at its insertion point.
pub open spec fn insert_by_time(sorted: Seq<MessageView>, message: MessageView) -> Seq<
    MessageView,
> {
    sorted.insert(insertion_point(sorted, message.created_at), message)
}

/// The messages of `messages` in ascending order of creation, those of one
/// instant in the order they have in `messages`.
pub open spec fn chronological(messages: Seq<MessageView>) -> Seq<MessageView>
    decreases messages.len(),
{
    if messages.len() == 0 {
        Seq::empty()
    } else {
        insert_by_time(chronological(messages.drop_first()), messages[0])
    }
}

/// No message of the run is created later than one behind it.
pub open spec fn ascending(messages: Seq<MessageView>) -> bool {
    forall|i: int, j: int|
        0 <= i < j < messages.len() ==> (#[trigger] messages[i]).created_at.at_or_before(
            (#[trigger] messages[j]).created_at,
        )
}

/// The insertion point is the one position with only strictly earlier
/// messages before it and, where it is not the end, a message at it that is
/// not earlier.
pub proof fn lemma_insertion_point(sorted: Seq<MessageView>, at: Timestamp, point: int)
    requires
        0 <= point <= sorted.len(),
        forall|j: int| 0 <= j < point ==> (#[trigger] sorted[j]).created_at.before(at),
        point < sorted.len() ==> at.at_or_before(sorted[point].created_at),
    ensures
        insertion_point(sorted, at) == point,
    decreases sorted.len(),
{
    if sorted.len() > 0 && !at.at_or_before(sorted[0].created_at) {
        let rest = sorted.drop_first();
        assert forall|j: int| 0 <= j < point - 1 implies (#[trigger] rest[j]).created_at.before(
            at,
        ) by {
            assert(rest[j] == sorted[j + 1]);
        }
        lemma_insertion_point(rest, at, point - 1);
    } else if sorted.len() > 0 {
        if point > 0 {
            assert(sorted[0].created_at.before(at));
        }
    }
}

/// Sorts the messages by creation time, oldest first, keeping messages of
/// one instant in the order they came in.
///
/// Messages that come in newest first, as the API sends them, are sorted in
/// linear time; in the worst case the time is quadratic in their number.
pub fn sort_chronologically(messages: Vec<Message>) -> (sorted: Vec<Message>)
    ensures
        message_views(sorted@) == chronological(message_views(messages@)),
        ascending(message_views(sorted@)),
        message_views(sorted@).to_multiset() == message_views(messages@).to_multiset(),
{
    let ghost all = message_views(messages@);
    let mut rest = messages;
    let mut sorted: Vec<Message> = Vec::new();
    assert(all.skip(all.len() as int) =~= Seq::<MessageView>::empty());
    while rest.len() > 0
        invariant
            rest.len() <= all.len(),
            message_views(rest@) == all.take(rest.len() as int),
            message_views(sorted@) == chronological(all.skip(rest.len() as int)),
        decreases rest.len(),
    {
        let ghost tail = all.skip(rest.len() as int);
        let ghost placed = message_views(sorted@);
        let ghost held = rest@;
        let message = rest.pop().unwrap();
        assert(message@ == all[rest.len() as int]) by {
            assert(message == held[rest.len() as int]);
            assert(message_views(held)[rest.len() as int] == message@);
        }
        let mut point: usize = sorted.len();
        while point > 0 && !sorted[point - 1].created_at.is_before(&message.created_at)
            invariant
                point <= sorted.len(),
                placed == message_views(sorted@),
                forall|j: int|
                    point <= j < placed.len() ==> message.created_at.at_or_before(
                        (#[trigger] placed[j]).created_at,
                    ),
            decreases point,
        {
            point -= 1;
        }
        proof {
            lemma_chronological_ascending(tail);
            assert forall|j: int| 0 <= j < point implies (#[trigger] placed[j]).created_at.before(
                message.created_at,
            ) by {
                assert(placed[j].created_at.at_or_before(placed[point - 1].created_at));
            }
            lemma_insertion_point(placed, message.created_at, point as int);
            let longer = all.skip(rest.len() as int);
            assert(longer.drop_first() =~= tail);
            assert(longer[0] == message@);
        }
        sorted.insert(point, message);
        assert(message_views(sorted@) =~= placed.insert(point as int, message@));
        assert(message_views(rest@) =~= all.take(rest.len() as int));
    }
    assert(all.skip(0) =~= all);
    proof {
        lemma_chronological_ascending(all);
        lemma_chronological_permutes(all);
    }
    sorted
}

/// Puts the messages of `page` into `messages`, in page order.
pub fn put_page(messages: &mut Vec<Message>, page: Vec<Message>)
    ensures
        message_views(final(messages)@) == merge(
            message_views(old(messages)@),
            message_views(page@),
        ),
{
    let ghost before = message_views(messages@);
    let ghost arriving = message_views(page@);
    assert(arriving.take(0) =~= Seq::<MessageView>::empty());
    for message in it: page
        invariant
            it.seq() == page@,
            arriving == message_views(page@),
            message_views(messages@) == merge(before, arriving.take(it.index() as int)),
    {
        proof {
            let longer = arriving.take(it.index() + 1);
            assert(longer.drop_last() =~= arriving.take(it.index() as int));
            assert(longer.last() == message@);
        }
        put_message(messages, message);
    }
    assert(arriving.take(arriving.len() as int) =~= arriving);
}

} // verus!
