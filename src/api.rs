use vstd::prelude::*;

use crate::ident::is_issued_id;
use crate::issue::Issue;
use crate::store::{after_create, after_set_status, has_id, lookup, IssueStore};

verus! {

/// The outcome of one request, before it is written out as HTTP.
#[derive(Debug, PartialEq, Eq)]
pub enum Reply {
    /// A report was stored under this new identifier (201).
    Created(String),
    /// Every stored record (200).
    Listed(Vec<Issue>),
    /// The record that was asked for, or that was just updated (200).
    Found(Issue),
    /// No record has the identifier given (404, empty body).
    NotFound,
}

pub open spec fn reply_status(r: Reply) -> u16 {
    match r {
        Reply::Created(_) => 201,
        Reply::Listed(_) => 200,
        Reply::Found(_) => 200,
        Reply::NotFound => 404,
    }
}

impl Reply {
    /// The HTTP status code that answers with this outcome.
    pub fn status_code(&self) -> (c: u16)
        ensures
            c == reply_status(*self),
    {
        match self {
            Reply::Created(_) => 201,
            Reply::Listed(_) => 200,
            Reply::Found(_) => 200,
            Reply::NotFound => 404,
        }
    }
}

/// Report an issue: store `issue` under a new identifier, which the reply
/// carries. Any record is accepted as it is; only its identifier is replaced.
pub fn report_issue(store: &mut IssueStore, issue: Issue) -> (r: Reply)
    requires
        old(store).wf(),
    ensures
        final(store).wf(),
        match r {
            Reply::Created(id) => {
                &&& is_issued_id(id@)
                &&& id@.len() > 0
                &&& !has_id(old(store)@, id@)
                &&& final(store)@ == after_create(old(store)@, issue@, id@)
            },
            _ => false,
        },
{
    Reply::Created(store.insert(issue))
}

/// List issues: every stored record.
pub fn get_issues(store: &IssueStore) -> (r: Reply)
    ensures
        match r {
            Reply::Listed(v) => v@.map_values(|x: Issue| x@) == store@,
            _ => false,
        },
{
    Reply::Listed(store.list())
}

/// Get one issue by its identifier.
pub fn get_issue_by_id(store: &IssueStore, id: &String) -> (r: Reply)
    requires
        store.wf(),
    ensures
        match r {
            Reply::Found(x) => lookup(store@, id@) == Some(x@),
            Reply::NotFound => !has_id(store@, id@),
            _ => false,
        },
{
    match store.get(id) {
        Some(x) => Reply::Found(x),
        None => Reply::NotFound,
    }
}

/// Update the status of one issue to the raw text `status`, and answer with
/// the updated record.
pub fn update_issue_status(store: &mut IssueStore, id: &String, status: String) -> (r: Reply)
    requires
        old(store).wf(),
    ensures
        final(store).wf(),
        final(store)@ == after_set_status(old(store)@, id@, status@),
        match r {
            Reply::Found(x) => has_id(old(store)@, id@) && lookup(final(store)@, id@) == Some(x@),
            Reply::NotFound => !has_id(old(store)@, id@),
            _ => false,
        },
{
    match store.set_status(id, status) {
        Some(x) => Reply::Found(x),
        None => Reply::NotFound,
    }
}

} // verus!
