use vstd::prelude::*;

use crate::time::Timestamp;

verus! {

/// An issue or, when `is_pull_request` holds, a pull request.
#[derive(Debug)]
pub struct Issue {
    pub number: u64,
    pub author: String,
    pub created_at: Timestamp,
    pub is_pull_request: bool,
}

/// A comment on a plain issue.
#[derive(Debug)]
pub struct IssueComment {
    pub author: String,
    pub created_at: Timestamp,
    pub updated_at: Option<Timestamp>,
}

/// A comment on a line of a pull request's diff.
#[derive(Debug)]
pub struct PullRequestComment {
    pub author: Option<String>,
    pub body: String,
    pub created_at: Timestamp,
    pub updated_at: Timestamp,
}

/// The outcome of a pull-request review.
#[derive(Clone, Copy, Debug, PartialEq, Eq, Structural)]
pub enum ReviewState {
    Open,
    Approved,
    Pending,
    ChangesRequested,
    Commented,
    Dismissed,
}

/// A review of a pull request.
#[derive(Debug)]
pub struct PullRequestReview {
    pub author: Option<String>,
    pub state: Option<ReviewState>,
    pub submitted_at: Option<Timestamp>,
}

/// The user name a record is counted under: the empty name when absent.
pub open spec fn author_key(author: Option<String>) -> Seq<char> {
    match author {
        Some(a) => a@,
        None => Seq::empty(),
    }
}

/// The user name a record is counted under, as a string.
pub fn author_or_empty(author: &Option<String>) -> (r: String)
    ensures
        r@ == author_key(*author),
{
    match author {
        Some(a) => a.clone(),
        None => String::new(),
    }
}

} // verus!
