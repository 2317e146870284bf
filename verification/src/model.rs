//! The domain records that the API's responses are decoded into.

use vstd::prelude::*;
use crate::time::Timestamp;

verus! {

/// A reference to a user.
#[derive(Debug, Clone, PartialEq, Eq)]
pub struct Member {
    pub id: String,
    pub username: String,
}

pub ghost struct MemberView {
    pub id: Seq<char>,
    pub username: Seq<char>,
}

impl View for Member {
    type V = MemberView;

    open spec fn view(&self) -> MemberView {
        MemberView { id: self.id@, username: self.username@ }
    }
}

/// The view of an optional member.
pub open spec fn optional_member_view(member: Option<Member>) -> Option<MemberView> {
    match member {
        Some(m) => Some(m@),
        None => None,
    }
}

/// The view of an optional string.
pub open spec fn optional_text_view(text: Option<String>) -> Option<Seq<char>> {
    match text {
        Some(s) => Some(s@),
        None => None,
    }
}

/// An issue of a project.
#[derive(Debug, Clone, PartialEq, Eq)]
pub struct Issue {
    pub id: String,
    pub title: String,
    pub number: usize,
    pub created_by: Member,
    pub assignee: Option<Member>,
    pub status: String,
    pub description: Option<String>,
}

pub ghost struct IssueView {
    pub id: Seq<char>,
    pub title: Seq<char>,
    pub number: nat,
    pub created_by: MemberView,
    pub assignee: Option<MemberView>,
    pub status: Seq<char>,
    pub description: Option<Seq<char>>,
}

impl View for Issue {
    type V = IssueView;

    open spec fn view(&self) -> IssueView {
        IssueView {
            id: self.id@,
            title: self.title@,
            number: self.number as nat,
            created_by: self.created_by@,
            assignee: optional_member_view(self.assignee),
            status: self.status@,
            description: optional_text_view(self.description),
        }
    }
}

/// A chat message. Two messages with the same `id` are versions of one
/// message.
#[derive(Debug, Clone, PartialEq, Eq)]
pub struct Message {
    pub id: String,
    pub text: String,
    pub author: Member,
    pub created_at: Timestamp,
}

pub ghost struct MessageView {
    pub id: Seq<char>,
    pub text: Seq<char>,
    pub author: MemberView,
    pub created_at: Timestamp,
}

impl View for Message {
    type V = MessageView;

    open spec fn view(&self) -> MessageView {
        MessageView {
            id: self.id@,
            text: self.text@,
            author: self.author@,
            created_at: self.created_at,
        }
    }
}

/// The views of a run of messages, in the same order.
pub open spec fn message_views(messages: Seq<Message>) -> Seq<MessageView> {
    messages.map_values(|m: Message| m@)
}

/// A project.
#[derive(Debug, Clone, PartialEq, Eq)]
pub struct Project {
    pub id: String,
    pub name: String,
    pub key: String,
}

pub ghost struct ProjectView {
    pub id: Seq<char>,
    pub name: Seq<char>,
    pub key: Seq<char>,
}

impl View for Project {
    type V = ProjectView;

    open spec fn view(&self) -> ProjectView {
        ProjectView { id: self.id@, name: self.name@, key: self.key@ }
    }
}

/// The body of a response that lists issues.
#[derive(Debug, Clone, PartialEq, Eq)]
pub struct IssuesApiResponse {
    pub data: Vec<Issue>,
}

impl View for IssuesApiResponse {
    type V = Seq<IssueView>;

    open spec fn view(&self) -> Seq<IssueView> {
        self.data@.map_values(|i: Issue| i@)
    }
}

/// The body of a response that lists projects.
#[derive(Debug, Clone, PartialEq, Eq)]
pub struct ProjectsApiResponse {
    pub data: Vec<Project>,
}

impl View for ProjectsApiResponse {
    type V = Seq<ProjectView>;

    open spec fn view(&self) -> Seq<ProjectView> {
        self.data@.map_values(|p: Project| p@)
    }
}

/// One page of messages, with the cursor at which the next page starts.
#[derive(Debug, Clone, PartialEq, Eq)]
pub struct MessagesApiResponse {
    pub messages: Vec<Message>,
    pub next_start_from_date: Option<Timestamp>,
}

pub ghost struct MessagesPageView {
    pub messages: Seq<MessageView>,
    pub next_start_from_date: Option<Timestamp>,
}

impl View for MessagesApiResponse {
    type V = MessagesPageView;

    open spec fn view(&self) -> MessagesPageView {
        MessagesPageView {
            messages: message_views(self.messages@),
            next_start_from_date: self.next_start_from_date,
        }
    }
}

} // verus!
