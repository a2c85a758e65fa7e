//! Reading what the issue tracker answers: the text of a description, the
//! ticket that a room shows, and the addresses of the tracker's endpoints.

use crate::codec::{base64_encode, base64_standard, encodable_len};
use crate::room::{JiraTicket, JiraTicketView};
use crate::text::{
    non_empty, push_signed_decimal, signed_decimal, text_if_any, text_of, trim, trimmed,
};
use vstd::prelude::*;
use vstd::string::*;

verus! {

/// A node of a description in the tracker's document format: it may carry
/// text of its own, and nodes below it.
#[derive(Debug, PartialEq, Eq)]
pub struct JiraContentNode {
    pub node_type: Option<String>,
    pub text: Option<String>,
    pub content: Option<Vec<JiraContentNode>>,
}

/// Whether a node of the type `node_type` ends a line: a paragraph or a
/// heading.
pub open spec fn ends_line(node_type: Option<String>) -> bool {
    match node_type {
        Some(t) => t@ == "paragraph"@ || t@ == "heading"@,
        None => false,
    }
}

/// The text of a node: its own text, then the text of the nodes below it
/// in their order, then a line break if the node is a paragraph or a
/// heading.
pub open spec fn node_text(node: JiraContentNode) -> Seq<char>
    decreases node,
{
    let own = match node.text {
        Some(t) => t@,
        None => Seq::empty(),
    };
    let below = match node.content {
        Some(children) => nodes_text(children@),
        None => Seq::empty(),
    };
    let end = if ends_line(node.node_type) {
        seq!['\n']
    } else {
        Seq::empty()
    };
    own + below + end
}

/// The texts of the nodes, one after the other.
pub open spec fn nodes_text(nodes: Seq<JiraContentNode>) -> Seq<char>
    decreases nodes,
{
    if nodes.len() == 0 {
        Seq::empty()
    } else {
        nodes_text(nodes.drop_last()) + node_text(nodes.last())
    }
}

impl JiraContentNode {
    /// The text of the node and of everything below it.
    pub fn extract_text(&self) -> (text: String)
        ensures
            text@ == node_text(*self),
        decreases *self,
    {
        let mut result = String::new();
        match &self.text {
            Some(t) => {
                result.append(t.as_str());
            },
            None => {},
        }
        match &self.content {
            Some(children) => {
                let below = extract_all(children);
                result.append(below.as_str());
            },
            None => {},
        }
        match &self.node_type {
            Some(t) => {
                if t.as_str().eq("paragraph") || t.as_str().eq("heading") {
                    result.push('\n');
                }
            },
            None => {},
        }
        assert(result@ =~= node_text(*self));
        result
    }
}

/// The texts of the nodes, one after the other.
pub fn extract_all(nodes: &Vec<JiraContentNode>) -> (text: String)
    ensures
        text@ == nodes_text(nodes@),
    decreases *nodes,
{
    let mut result = String::new();
    let mut i: usize = 0;
    assert(nodes@.take(0) =~= Seq::<JiraContentNode>::empty());
    while i < nodes.len()
        invariant
            i <= nodes.len(),
            result@ == nodes_text(nodes@.take(i as int)),
        decreases nodes.len() - i,
    {
        let piece = nodes[i].extract_text();
        result.append(piece.as_str());
        proof {
            let s = nodes@.take(i as int + 1);
            assert(s.drop_last() =~= nodes@.take(i as int));
            assert(s.last() == nodes@[i as int]);
        }
        i += 1;
    }
    assert(nodes@.take(i as int) =~= nodes@);
    result
}

/// A description as the tracker sends it: plain text, or a document.
#[derive(Debug, PartialEq, Eq)]
pub enum JiraDescriptionValue {
    PlainString(String),
    Adf(JiraDescription),
}

/// A description in the tracker's document format.
#[derive(Debug, PartialEq, Eq)]
pub struct JiraDescription {
    pub content: Option<Vec<JiraContentNode>>,
}

/// An issue as the tracker sends it.
#[derive(Debug, PartialEq, Eq)]
pub struct JiraIssue {
    pub key: String,
    pub summary: String,
    pub description: Option<JiraDescriptionValue>,
    pub issue_type: Option<String>,
    pub status: Option<String>,
}

/// A project of the tracker.
#[derive(Debug, PartialEq, Eq)]
pub struct JiraProject {
    pub id: String,
    pub key: String,
    pub name: String,
}

/// A board of the tracker.
#[derive(Debug, PartialEq, Eq)]
pub struct JiraBoard {
    pub id: i64,
    pub name: String,
    pub board_type: String,
}

/// An issue as a list of issues shows it.
#[derive(Debug, PartialEq, Eq)]
pub struct JiraIssueInfo {
    pub key: String,
    pub summary: String,
    pub issue_type: Option<String>,
    pub status: Option<String>,
}

/// What a [`JiraIssueInfo`] holds, as plain text.
pub struct JiraIssueInfoView {
    pub key: Seq<char>,
    pub summary: Seq<char>,
    pub issue_type: Option<Seq<char>>,
    pub status: Option<Seq<char>>,
}

impl View for JiraIssueInfo {
    type V = JiraIssueInfoView;

    open spec fn view(&self) -> JiraIssueInfoView {
        JiraIssueInfoView {
            key: self.key@,
            summary: self.summary@,
            issue_type: text_of(self.issue_type),
            status: text_of(self.status),
        }
    }
}

/// The text of a description: plain text as it is; of a document the text
/// of its nodes without the white space at its ends, and nothing where that
/// is empty or the document has no nodes.
pub open spec fn description_of(description: Option<JiraDescriptionValue>) -> Option<Seq<char>> {
    match description {
        None => None,
        Some(JiraDescriptionValue::PlainString(s)) => Some(s@),
        Some(JiraDescriptionValue::Adf(document)) => match document.content {
            None => None,
            Some(nodes) => non_empty(trimmed(nodes_text(nodes@))),
        },
    }
}

/// The text of a description.
pub fn description_text(description: Option<JiraDescriptionValue>) -> (text: Option<String>)
    ensures
        text_of(text) == description_of(description),
{
    match description {
        None => None,
        Some(JiraDescriptionValue::PlainString(s)) => Some(s),
        Some(JiraDescriptionValue::Adf(document)) => match document.content {
            None => None,
            Some(nodes) => {
                let all = extract_all(&nodes);
                text_if_any(trim(all.as_str()))
            },
        },
    }
}

/// The address under which the tracker shows the issue `key`.
pub open spec fn browse_url_of(base_url: Seq<char>, key: Seq<char>) -> Seq<char> {
    base_url + "/browse/"@ + key
}

/// The ticket that a room shows of `issue`, for the tracker at `base_url`.
pub open spec fn ticket_of_issue(base_url: Seq<char>, issue: JiraIssue) -> JiraTicketView {
    JiraTicketView {
        key: issue.key@,
        summary: issue.summary@,
        description: description_of(issue.description),
        issue_type: text_of(issue.issue_type),
        status: text_of(issue.status),
        url: browse_url_of(base_url, issue.key@),
    }
}

/// `base` followed by `rest`.
fn join2(base: &str, rest: &str) -> (joined: String)
    ensures
        joined@ == base@ + rest@,
{
    let mut joined = String::from_str(base);
    joined.append(rest);
    joined
}

/// The ticket that a room shows of `issue`, for the tracker at `base_url`.
pub fn ticket_from_issue(base_url: &str, issue: JiraIssue) -> (ticket: JiraTicket)
    ensures
        ticket@ == ticket_of_issue(base_url@, issue),
{
    let mut url = join2(base_url, "/browse/");
    url.append(issue.key.as_str());
    JiraTicket {
        key: issue.key,
        summary: issue.summary,
        description: description_text(issue.description),
        issue_type: issue.issue_type,
        status: issue.status,
        url: url,
    }
}

/// What a list of issues shows of `issue`.
pub fn issue_info(issue: JiraIssue) -> (info: JiraIssueInfo)
    ensures
        info@ == (JiraIssueInfoView {
            key: issue.key@,
            summary: issue.summary@,
            issue_type: text_of(issue.issue_type),
            status: text_of(issue.status),
        }),
{
    JiraIssueInfo {
        key: issue.key,
        summary: issue.summary,
        issue_type: issue.issue_type,
        status: issue.status,
    }
}

/// The address of the issue `key`.
pub fn issue_url(base_url: &str, key: &str) -> (url: String)
    ensures
        url@ == base_url@ + "/rest/api/3/issue/"@ + key@,
{
    let mut url = join2(base_url, "/rest/api/3/issue/");
    url.append(key);
    url
}

/// The address of the list of projects.
pub fn projects_url(base_url: &str) -> (url: String)
    ensures
        url@ == base_url@ + "/rest/api/3/project"@,
{
    join2(base_url, "/rest/api/3/project")
}

/// The address of the list of boards of the project `project_key`.
pub fn boards_url(base_url: &str, project_key: &str) -> (url: String)
    ensures
        url@ == base_url@ + "/rest/agile/1.0/board?projectKeyOrId="@ + project_key@,
{
    let mut url = join2(base_url, "/rest/agile/1.0/board?projectKeyOrId=");
    url.append(project_key);
    url
}

/// The address of the backlog of the board `board_id`: its first fifty
/// issues.
pub fn backlog_url(base_url: &str, board_id: i64) -> (url: String)
    ensures
        url@ == base_url@ + "/rest/agile/1.0/board/"@ + signed_decimal(board_id as int)
            + "/backlog?maxResults=50"@,
{
    let mut url = join2(base_url, "/rest/agile/1.0/board/");
    push_signed_decimal(&mut url, board_id);
    url.append("/backlog?maxResults=50");
    url
}

/// The address of the issues of the board `board_id`: the first fifty. It
/// is asked where the board has no backlog.
pub fn board_issues_url(base_url: &str, board_id: i64) -> (url: String)
    ensures
        url@ == base_url@ + "/rest/agile/1.0/board/"@ + signed_decimal(board_id as int)
            + "/issue?maxResults=50"@,
{
    let mut url = join2(base_url, "/rest/agile/1.0/board/");
    push_signed_decimal(&mut url, board_id);
    url.append("/issue?maxResults=50");
    url
}

/// The failure that reports an answer of the tracker that is no success:
/// its status and its body.
pub fn api_error(status: &str, body: &str) -> (message: String)
    ensures
        message@ == "Jira API error ("@ + status@ + "): "@ + body@,
{
    let mut message = join2("Jira API error (", status);
    message.append("): ");
    message.append(body);
    message
}

/// The header value that authorises `email` with `api_token`, given the
/// encoding of `email:api_token`.
pub fn basic_auth_from(encoded: &str) -> (header: String)
    ensures
        header@ == "Basic "@ + encoded@,
{
    join2("Basic ", encoded)
}

/// Whether `text` is short enough to encode: its UTF-8 bytes number at
/// most half of what `usize` can count.
pub open spec fn can_encode(text: Seq<char>) -> bool {
    vstd::utf8::encode_utf8(text).len() <= encodable_len()
}

/// The header value that authorises `email` with `api_token`: `Basic` and
/// the encoding of `email:api_token`. There is none where the two are too
/// long to encode.
pub fn basic_auth(email: &str, api_token: &str) -> (header: Option<String>)
    ensures
        text_of(header) == (if can_encode(email@ + ":"@ + api_token@) {
            Some("Basic "@ + base64_standard(vstd::utf8::encode_utf8(email@ + ":"@ + api_token@)))
        } else {
            None
        }),
{
    let mut credentials = join2(email, ":");
    credentials.append(api_token);
    if credentials.as_str().as_bytes().len() > usize::MAX / 2 {
        None
    } else {
        let encoded = base64_encode(credentials.as_str().as_bytes());
        Some(basic_auth_from(encoded.as_str()))
    }
}

} // verus!
