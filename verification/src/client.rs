//! Where the API lives and how a request presents itself: the addresses of
//! the endpoints and the authorization that goes with every request.

use vstd::prelude::*;
use vstd::string::StringExecFns;

verus! {

/// The digit that writes `d`, for `d` below ten.
pub open spec fn digit(d: nat) -> char {
    if d == 0 {
        '0'
    } else if d == 1 {
        '1'
    } else if d == 2 {
        '2'
    } else if d == 3 {
        '3'
    } else if d == 4 {
        '4'
    } else if d == 5 {
        '5'
    } else if d == 6 {
        '6'
    } else if d == 7 {
        '7'
    } else if d == 8 {
        '8'
    } else {
        '9'
    }
}

/// `n` in decimal digits, without leading zeros.
pub open spec fn decimal(n: nat) -> Seq<char>
    decreases n,
{
    if n < 10 {
        seq![digit(n)]
    } else {
        decimal(n / 10).push(digit(n % 10))
    }
}

fn digit_text(d: u32) -> (text: &'static str)
    requires
        d < 10,
    ensures
        text@ == seq![digit(d as nat)],
{
    proof {
        reveal_strlit("0");
        reveal_strlit("1");
        reveal_strlit("2");
        reveal_strlit("3");
        reveal_strlit("4");
        reveal_strlit("5");
        reveal_strlit("6");
        reveal_strlit("7");
        reveal_strlit("8");
        reveal_strlit("9");
    }
    let text = if d == 0 {
        "0"
    } else if d == 1 {
        "1"
    } else if d == 2 {
        "2"
    } else if d == 3 {
        "3"
    } else if d == 4 {
        "4"
    } else if d == 5 {
        "5"
    } else if d == 6 {
        "6"
    } else if d == 7 {
        "7"
    } else if d == 8 {
        "8"
    } else {
        "9"
    };
    assert(text@ =~= seq![digit(d as nat)]);
    text
}

/// Writes `n` in decimal digits at the end of `text`.
pub fn push_decimal(text: &mut String, n: u32)
    ensures
        final(text)@ == old(text)@ + decimal(n as nat),
    decreases n,
{
    if n >= 10 {
        push_decimal(text, n / 10);
    }
    text.append(digit_text(n % 10));
    assert(text@ =~= old(text)@ + decimal(n as nat));
}

/// The base address of the API and the token that authorizes requests to
/// it.
#[derive(Debug, Clone, PartialEq, Eq)]
pub struct Client {
    base_url: String,
    auth_token: String,
}

pub ghost struct ClientView {
    pub base_url: Seq<char>,
    pub auth_token: Seq<char>,
}

impl View for Client {
    type V = ClientView;

    closed spec fn view(&self) -> ClientView {
        ClientView { base_url: self.base_url@, auth_token: self.auth_token@ }
    }
}

impl Client {
    pub fn new(base_url: &str, auth_token: &str) -> (client: Self)
        ensures
            client@ == (ClientView { base_url: base_url@, auth_token: auth_token@ }),
    {
        Self { base_url: base_url.to_owned(), auth_token: auth_token.to_owned() }
    }

    /// The value of the `Authorization` header of every request.
    pub fn authorization(&self) -> (header: String)
        ensures
            header@ == "Bearer "@ + self@.auth_token,
    {
        let mut header = "Bearer ".to_owned();
        header.append(self.auth_token.as_str());
        header
    }

    /// The address that lists the projects.
    pub fn projects_url(&self) -> (url: String)
        ensures
            url@ == self@.base_url + "/api/http/projects"@,
    {
        let mut url = self.base_url.clone();
        url.append("/api/http/projects");
        url
    }

    /// The address that lists the issues of a project.
    pub fn issues_url(&self, project_id: &str) -> (url: String)
        ensures
            url@ == self@.base_url + "/api/http/projects/id:"@ + project_id@
                + "/planning/issues"@,
    {
        let mut url = self.base_url.clone();
        url.append("/api/http/projects/id:");
        url.append(project_id);
        url.append("/planning/issues");
        url
    }

    /// The address of the issue that has `number` in a project.
    pub fn issue_url(&self, project_id: &str, number: u32) -> (url: String)
        ensures
            url@ == self@.base_url + "/api/http/projects/id:"@ + project_id@
                + "/planning/issues/number:"@ + decimal(number as nat),
    {
        let mut url = self.base_url.clone();
        url.append("/api/http/projects/id:");
        url.append(project_id);
        url.append("/planning/issues/number:");
        push_decimal(&mut url, number);
        url
    }

    /// The address that lists the messages of a channel.
    pub fn messages_url(&self) -> (url: String)
        ensures
            url@ == self@.base_url + "/api/http/chats/messages"@,
    {
        let mut url = self.base_url.clone();
        url.append("/api/http/chats/messages");
        url
    }

    /// The fields that a request for a single issue asks for.
    pub fn issue_fields() -> (fields: &'static str)
        ensures
            fields@
                == "assignee(username,id),id,number,status,title,description,createdBy,commentsCount"@,
    {
        "assignee(username,id),id,number,status,title,description,createdBy,commentsCount"
    }
}

} // verus!
