//! The queries that the listing requests carry.

use vstd::prelude::*;
use vstd::string::StringExecFns;
use crate::time::Timestamp;

verus! {

/// The query of a request for the issues of one project.
#[derive(Debug, Clone, PartialEq, Eq)]
pub struct IssuesQuery {
    pub project_id: String,
    pub sorting: String,
    pub descending: bool,
    pub top: usize,
    pub skip: usize,
    pub fields: String,
}

pub ghost struct IssuesQueryView {
    pub project_id: Seq<char>,
    pub sorting: Seq<char>,
    pub descending: bool,
    pub top: nat,
    pub skip: nat,
    pub fields: Seq<char>,
}

impl View for IssuesQuery {
    type V = IssuesQueryView;

    open spec fn view(&self) -> IssuesQueryView {
        IssuesQueryView {
            project_id: self.project_id@,
            sorting: self.sorting@,
            descending: self.descending,
            top: self.top as nat,
            skip: self.skip as nat,
            fields: self.fields@,
        }
    }
}

impl IssuesQuery {
    /// The query for the newest thousand issues of a project.
    pub open spec fn newest(project_id: Seq<char>) -> IssuesQueryView {
        IssuesQueryView {
            project_id,
            sorting: "CREATED"@,
            descending: true,
            top: 1000,
            skip: 0,
            fields: "data(assignee(username,id),id,number,status,title,description,createdBy,commentsCount),next,totalCount"@,
        }
    }

    pub fn new(project_id: &str) -> (query: Self)
        ensures
            query@ == Self::newest(project_id@),
    {
        Self {
            project_id: project_id.to_owned(),
            sorting: "CREATED".to_owned(),
            descending: true,
            top: 1000,
            skip: 0,
            fields: "data(assignee(username,id),id,number,status,title,description,createdBy,commentsCount),next,totalCount".to_owned(),
        }
    }
}

/// The query of a request for one page of the messages of a channel.
///
/// `start_from_date` is the cursor: absent for the first page, and for each
/// later page the one that the page before it named.
#[derive(Debug, Clone, PartialEq, Eq)]
pub struct MessagesQuery {
    pub channel: String,
    pub sorting: String,
    pub batch_size: usize,
    pub fields: String,
    pub start_from_date: Option<Timestamp>,
}

pub ghost struct MessagesQueryView {
    pub channel: Seq<char>,
    pub sorting: Seq<char>,
    pub batch_size: nat,
    pub fields: Seq<char>,
    pub start_from_date: Option<Timestamp>,
}

impl View for MessagesQuery {
    type V = MessagesQueryView;

    open spec fn view(&self) -> MessagesQueryView {
        MessagesQueryView {
            channel: self.channel@,
            sorting: self.sorting@,
            batch_size: self.batch_size as nat,
            fields: self.fields@,
            start_from_date: self.start_from_date,
        }
    }
}

impl MessagesQuery {
    /// The query for the first page of an issue's messages, newest first,
    /// fifty to a page.
    pub open spec fn first_page(issue_id: Seq<char>) -> MessagesQueryView {
        MessagesQueryView {
            channel: "issue:id:"@ + issue_id,
            sorting: "FromNewestToOldest"@,
            batch_size: 50,
            fields: "nextStartFromDate,orgLimitReached,messages(id,author,created,text)"@,
            start_from_date: None,
        }
    }

    pub fn new(issue_id: &str) -> (query: Self)
        ensures
            query@ == Self::first_page(issue_id@),
    {
        let mut channel = "issue:id:".to_owned();
        channel.append(issue_id);
        Self {
            channel,
            sorting: "FromNewestToOldest".to_owned(),
            batch_size: 50,
            fields: "nextStartFromDate,orgLimitReached,messages(id,author,created,text)".to_owned(),
            start_from_date: None,
        }
    }
}

} // verus!
