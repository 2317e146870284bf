//! Decoding the API's JSON shapes into domain records.
//!
//! Every decoder is a function of the JSON value alone. A record's members
//! are looked up by name, members that the record does not know are passed
//! over, and a member that the record needs is never made up: apart from the
//! stand-in id of a deleted creator, whatever is missing or of the wrong
//! kind is an error. Where several members are at fault, the error is that
//! of the field that the record lists first.

use vstd::prelude::*;
use crate::error::{stands_for, stands_for_optional, ParseError};
use crate::json::{item_views, Json, JsonValue};
use crate::model::{
    message_views, Issue, IssueView, IssuesApiResponse, Member, MemberView, Message,
    MessageView, MessagesApiResponse, MessagesPageView, Project, ProjectView,
    ProjectsApiResponse,
};
use crate::time::{rfc3339_instant, Timestamp};

verus! {

/// The member that a creator shape `{name, details?: {user: {id}}}` stands
/// for. Without `details` the creator's account is gone and the id is
/// `"deleted"`.
pub open spec fn created_by(raw: JsonValue) -> Result<MemberView, ParseError> {
    match raw.required_text("name"@) {
        Err(e) => Err(e),
        Ok(username) => match raw.optional("details"@) {
            Err(e) => Err(e),
            Ok(None) => Ok(MemberView { id: "deleted"@, username }),
            Ok(Some(details)) => match details.required("user"@) {
                Err(e) => Err(e),
                Ok(user) => match user.required_text("id"@) {
                    Err(e) => Err(e),
                    Ok(id) => Ok(MemberView { id, username }),
                },
            },
        },
    }
}

/// The instant that a date shape `{iso}` stands for.
pub open spec fn space_date(raw: JsonValue) -> Result<Timestamp, ParseError> {
    match raw.required_text("iso"@) {
        Err(e) => Err(e),
        Ok(text) => Timestamp::of_instant(rfc3339_instant(text)),
    }
}

/// The member that an assignee shape stands for: nobody for `null`, else
/// the `{id, username}` of the object.
pub open spec fn assignee(raw: JsonValue) -> Result<Option<MemberView>, ParseError> {
    if raw == JsonValue::Null {
        Ok(None)
    } else {
        match raw.required_text("id"@) {
            Err(e) => Err(e),
            Ok(id) => match raw.required_text("username"@) {
                Err(e) => Err(e),
                Ok(username) => Ok(Some(MemberView { id, username })),
            },
        }
    }
}

/// The name that a status shape `{name}` stands for.
pub open spec fn status(raw: JsonValue) -> Result<Seq<char>, ParseError> {
    raw.required_text("name"@)
}

/// The key that a project key shape `{key}` stands for.
pub open spec fn project_key(raw: JsonValue) -> Result<Seq<char>, ParseError> {
    raw.required_text("key"@)
}

/// Decodes the creator of an issue or the author of a message.
pub fn deserialize_created_by(raw: &Json) -> (member: Result<Member, ParseError>)
    ensures
        stands_for(member, created_by(raw@)),
{
    let username = raw.required_text("name")?;
    match raw.optional("details")? {
        None => Ok(Member { id: "deleted".to_owned(), username }),
        Some(details) => {
            let user = details.required("user")?;
            let id = user.required_text("id")?;
            Ok(Member { id, username })
        },
    }
}

/// Decodes a date of the API into an instant of UTC.
pub fn deserialize_space_date(raw: &Json) -> (instant: Result<Timestamp, ParseError>)
    ensures
        instant == space_date(raw@),
{
    let text = raw.required_text("iso")?;
    Timestamp::parse(text.as_str())
}

/// Decodes the assignee of an issue.
pub fn deserialize_assignee(raw: &Json) -> (member: Result<Option<Member>, ParseError>)
    ensures
        stands_for_optional(member, assignee(raw@)),
{
    if raw.is_null() {
        Ok(None)
    } else {
        let id = raw.required_text("id")?;
        let username = raw.required_text("username")?;
        Ok(Some(Member { id, username }))
    }
}

/// Decodes the status of an issue.
pub fn deserialize_status(raw: &Json) -> (name: Result<String, ParseError>)
    ensures
        stands_for(name, status(raw@)),
{
    raw.required_text("name")
}

/// Decodes the key of a project.
pub fn deserialize_project_key(raw: &Json) -> (key: Result<String, ParseError>)
    ensures
        stands_for(key, project_key(raw@)),
{
    raw.required_text("key")
}

/// The issue that an object with the members `id`, `title`, `number`,
/// `createdBy`, `status` and, where they are there, `assignee` and
/// `description` stands for.
pub open spec fn issue(raw: JsonValue) -> Result<IssueView, ParseError> {
    let id = raw.required_text("id"@);
    let title = raw.required_text("title"@);
    let number = match raw.required("number"@) {
        Ok(n) => n.size(),
        Err(e) => Err(e),
    };
    let creator = match raw.required("createdBy"@) {
        Ok(c) => created_by(c),
        Err(e) => Err(e),
    };
    let assigned = match raw.member("assignee"@) {
        Ok(Some(a)) => assignee(a),
        Ok(None) => Ok(None),
        Err(e) => Err(e),
    };
    let state = match raw.required("status"@) {
        Ok(s) => status(s),
        Err(e) => Err(e),
    };
    let description = raw.optional_text("description"@);
    if id is Err {
        Err(id->Err_0)
    } else if title is Err {
        Err(title->Err_0)
    } else if number is Err {
        Err(number->Err_0)
    } else if creator is Err {
        Err(creator->Err_0)
    } else if assigned is Err {
        Err(assigned->Err_0)
    } else if state is Err {
        Err(state->Err_0)
    } else if description is Err {
        Err(description->Err_0)
    } else {
        Ok(
            IssueView {
                id: id->Ok_0,
                title: title->Ok_0,
                number: number->Ok_0,
                created_by: creator->Ok_0,
                assignee: assigned->Ok_0,
                status: state->Ok_0,
                description: description->Ok_0,
            },
        )
    }
}

/// The message that an object with the members `id`, `text`, `author` and
/// `created` stands for.
pub open spec fn message(raw: JsonValue) -> Result<MessageView, ParseError> {
    let id = raw.required_text("id"@);
    let text = raw.required_text("text"@);
    let author = match raw.required("author"@) {
        Ok(a) => created_by(a),
        Err(e) => Err(e),
    };
    let created = match raw.required("created"@) {
        Ok(c) => space_date(c),
        Err(e) => Err(e),
    };
    if id is Err {
        Err(id->Err_0)
    } else if text is Err {
        Err(text->Err_0)
    } else if author is Err {
        Err(author->Err_0)
    } else if created is Err {
        Err(created->Err_0)
    } else {
        Ok(
            MessageView {
                id: id->Ok_0,
                text: text->Ok_0,
                author: author->Ok_0,
                created_at: created->Ok_0,
            },
        )
    }
}

/// The project that an object with the members `id`, `name` and `key`
/// stands for.
pub open spec fn project(raw: JsonValue) -> Result<ProjectView, ParseError> {
    let id = raw.required_text("id"@);
    let name = raw.required_text("name"@);
    let key = match raw.required("key"@) {
        Ok(k) => project_key(k),
        Err(e) => Err(e),
    };
    if id is Err {
        Err(id->Err_0)
    } else if name is Err {
        Err(name->Err_0)
    } else if key is Err {
        Err(key->Err_0)
    } else {
        Ok(ProjectView { id: id->Ok_0, name: name->Ok_0, key: key->Ok_0 })
    }
}

/// The records that the items of an array stand for, or the error of the
/// first item that stands for none.
pub open spec fn each<T>(
    items: Seq<JsonValue>,
    decode: spec_fn(JsonValue) -> Result<T, ParseError>,
) -> Result<Seq<T>, ParseError>
    decreases items.len(),
{
    if items.len() == 0 {
        Ok(Seq::empty())
    } else {
        match each(items.drop_last(), decode) {
            Err(e) => Err(e),
            Ok(decoded) => match decode(items.last()) {
                Err(e) => Err(e),
                Ok(record) => Ok(decoded.push(record)),
            },
        }
    }
}

/// The records that the array member `key` of an object stands for.
pub open spec fn listed<T>(
    raw: JsonValue,
    key: Seq<char>,
    decode: spec_fn(JsonValue) -> Result<T, ParseError>,
) -> Result<Seq<T>, ParseError> {
    match raw.required(key) {
        Err(e) => Err(e),
        Ok(list) => match list.items() {
            Err(e) => Err(e),
            Ok(items) => each(items, decode),
        },
    }
}

/// `issue`, as a value.
pub open spec fn issue_decoder() -> spec_fn(JsonValue) -> Result<IssueView, ParseError> {
    |item: JsonValue| issue(item)
}

/// `project`, as a value.
pub open spec fn project_decoder() -> spec_fn(JsonValue) -> Result<ProjectView, ParseError> {
    |item: JsonValue| project(item)
}

/// `message`, as a value.
pub open spec fn message_decoder() -> spec_fn(JsonValue) -> Result<MessageView, ParseError> {
    |item: JsonValue| message(item)
}

/// The issues that a body `{data: [..]}` lists.
pub open spec fn issues_response(raw: JsonValue) -> Result<Seq<IssueView>, ParseError> {
    listed(raw, "data"@, issue_decoder())
}

/// The projects that a body `{data: [..]}` lists.
pub open spec fn projects_response(raw: JsonValue) -> Result<Seq<ProjectView>, ParseError> {
    listed(raw, "data"@, project_decoder())
}

/// The page that a body `{messages: [..], nextStartFromDate?: {iso}}`
/// stands for.
pub open spec fn messages_response(raw: JsonValue) -> Result<MessagesPageView, ParseError> {
    let messages = listed(raw, "messages"@, message_decoder());
    let next = match raw.optional("nextStartFromDate"@) {
        Ok(Some(date)) => match space_date(date) {
            Ok(instant) => Ok(Some(instant)),
            Err(e) => Err(e),
        },
        Ok(None) => Ok(None),
        Err(e) => Err(e),
    };
    if messages is Err {
        Err(messages->Err_0)
    } else if next is Err {
        Err(next->Err_0)
    } else {
        Ok(MessagesPageView { messages: messages->Ok_0, next_start_from_date: next->Ok_0 })
    }
}

/// Decodes an issue.
pub fn deserialize_issue(raw: &Json) -> (decoded: Result<Issue, ParseError>)
    ensures
        stands_for(decoded, issue(raw@)),
{
    let id = raw.required_text("id")?;
    let title = raw.required_text("title")?;
    let number = raw.required("number")?.size()?;
    let created_by = deserialize_created_by(raw.required("createdBy")?)?;
    let assignee = match raw.member("assignee")? {
        Some(a) => deserialize_assignee(a)?,
        None => None,
    };
    let status = deserialize_status(raw.required("status")?)?;
    let description = raw.optional_text("description")?;
    Ok(Issue { id, title, number, created_by, assignee, status, description })
}

/// Decodes a message.
pub fn deserialize_message(raw: &Json) -> (decoded: Result<Message, ParseError>)
    ensures
        stands_for(decoded, message(raw@)),
{
    let id = raw.required_text("id")?;
    let text = raw.required_text("text")?;
    let author = deserialize_created_by(raw.required("author")?)?;
    let created_at = deserialize_space_date(raw.required("created")?)?;
    Ok(Message { id, text, author, created_at })
}

/// Decodes a project.
pub fn deserialize_project(raw: &Json) -> (decoded: Result<Project, ParseError>)
    ensures
        stands_for(decoded, project(raw@)),
{
    let id = raw.required_text("id")?;
    let name = raw.required_text("name")?;
    let key = deserialize_project_key(raw.required("key")?)?;
    Ok(Project { id, name, key })
}

/// An item that stands for no record fails the whole array, whatever
/// follows it.
pub proof fn lemma_each_fails_with_prefix<T>(
    items: Seq<JsonValue>,
    decode: spec_fn(JsonValue) -> Result<T, ParseError>,
    upto: int,
)
    requires
        0 <= upto <= items.len(),
        each(items.take(upto), decode) is Err,
    ensures
        each(items, decode) == each(items.take(upto), decode),
    decreases items.len(),
{
    if upto == items.len() {
        assert(items.take(upto) =~= items);
    } else {
        assert(items.drop_last().take(upto) =~= items.take(upto));
        lemma_each_fails_with_prefix(items.drop_last(), decode, upto);
    }
}

/// What `each` makes of one item more.
pub proof fn lemma_each_next<T>(
    items: Seq<JsonValue>,
    decode: spec_fn(JsonValue) -> Result<T, ParseError>,
    upto: int,
)
    requires
        0 <= upto < items.len(),
    ensures
        each(items.take(upto + 1), decode) == match each(items.take(upto), decode) {
            Err(e) => Err(e),
            Ok(decoded) => match decode(items[upto]) {
                Err(e) => Err(e),
                Ok(record) => Ok(decoded.push(record)),
            },
        },
{
    assert(items.take(upto + 1).drop_last() =~= items.take(upto));
}

/// Decodes the body of a response that lists issues.
pub fn deserialize_issues_response(raw: &Json) -> (decoded: Result<IssuesApiResponse, ParseError>)
    ensures
        stands_for(decoded, issues_response(raw@)),
{
    let items = raw.required("data")?.items()?;
    let ghost values = item_views(items@);
    let mut data: Vec<Issue> = Vec::new();
    let mut i: usize = 0;
    assert(values.take(0) =~= Seq::<JsonValue>::empty());
    assert(data@.map_values(|x: Issue| x@) =~= Seq::<IssueView>::empty());
    while i < items.len()
        invariant
            i <= items.len(),
            values == item_views(items@),
            listed(raw@, "data"@, issue_decoder()) == each(values, issue_decoder()),
            each(values.take(i as int), issue_decoder()) == Ok::<_, ParseError>(
                data@.map_values(|x: Issue| x@),
            ),
        decreases items.len() - i,
    {
        let ghost decoded = data@.map_values(|x: Issue| x@);
        proof {
            lemma_each_next(values, issue_decoder(), i as int);
        }
        match deserialize_issue(&items[i]) {
            Ok(record) => {
                data.push(record);
                assert(data@.map_values(|x: Issue| x@) =~= decoded.push(record@));
            },
            Err(e) => {
                proof {
                    lemma_each_fails_with_prefix(values, issue_decoder(), i + 1);
                }
                return Err(e);
            },
        }
        i += 1;
    }
    assert(values.take(i as int) =~= values);
    Ok(IssuesApiResponse { data })
}

/// Decodes the body of a response that lists projects.
pub fn deserialize_projects_response(raw: &Json) -> (decoded: Result<
    ProjectsApiResponse,
    ParseError,
>)
    ensures
        stands_for(decoded, projects_response(raw@)),
{
    let items = raw.required("data")?.items()?;
    let ghost values = item_views(items@);
    let mut data: Vec<Project> = Vec::new();
    let mut i: usize = 0;
    assert(values.take(0) =~= Seq::<JsonValue>::empty());
    assert(data@.map_values(|x: Project| x@) =~= Seq::<ProjectView>::empty());
    while i < items.len()
        invariant
            i <= items.len(),
            values == item_views(items@),
            listed(raw@, "data"@, project_decoder()) == each(values, project_decoder()),
            each(values.take(i as int), project_decoder()) == Ok::<_, ParseError>(
                data@.map_values(|x: Project| x@),
            ),
        decreases items.len() - i,
    {
        let ghost decoded = data@.map_values(|x: Project| x@);
        proof {
            lemma_each_next(values, project_decoder(), i as int);
        }
        match deserialize_project(&items[i]) {
            Ok(record) => {
                data.push(record);
                assert(data@.map_values(|x: Project| x@) =~= decoded.push(record@));
            },
            Err(e) => {
                proof {
                    lemma_each_fails_with_prefix(values, project_decoder(), i + 1);
                }
                return Err(e);
            },
        }
        i += 1;
    }
    assert(values.take(i as int) =~= values);
    Ok(ProjectsApiResponse { data })
}

/// Decodes one page of messages.
pub fn deserialize_messages_response(raw: &Json) -> (decoded: Result<
    MessagesApiResponse,
    ParseError,
>)
    ensures
        stands_for(decoded, messages_response(raw@)),
{
    let items = raw.required("messages")?.items()?;
    let ghost values = item_views(items@);
    let mut messages: Vec<Message> = Vec::new();
    let mut i: usize = 0;
    assert(values.take(0) =~= Seq::<JsonValue>::empty());
    assert(message_views(messages@) =~= Seq::<MessageView>::empty());
    while i < items.len()
        invariant
            i <= items.len(),
            values == item_views(items@),
            listed(raw@, "messages"@, message_decoder()) == each(values, message_decoder()),
            each(values.take(i as int), message_decoder()) == Ok::<_, ParseError>(
                message_views(messages@),
            ),
        decreases items.len() - i,
    {
        let ghost decoded = message_views(messages@);
        proof {
            lemma_each_next(values, message_decoder(), i as int);
        }
        match deserialize_message(&items[i]) {
            Ok(record) => {
                messages.push(record);
                assert(message_views(messages@) =~= decoded.push(record@));
            },
            Err(e) => {
                proof {
                    lemma_each_fails_with_prefix(values, message_decoder(), i + 1);
                }
                return Err(e);
            },
        }
        i += 1;
    }
    assert(values.take(i as int) =~= values);
    let next_start_from_date = match raw.optional("nextStartFromDate")? {
        Some(date) => Some(deserialize_space_date(date)?),
        None => None,
    };
    Ok(MessagesApiResponse { messages, next_start_from_date })
}

} // verus!
