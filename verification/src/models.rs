use vstd::prelude::*;
use crate::order::Moment;

verus! {

/// A repository found by a scan.
#[derive(Debug, Clone)]
pub struct RepoInfo {
    pub path: String,
    pub branch: Option<String>,
    /// Last activity, as seconds since the Unix epoch and nanoseconds (UTC).
    pub last_activity_utc: Option<Moment>,
    pub source: Option<String>,
}

/// The column by which the repository table is ordered.
#[derive(Debug, Clone, Copy, PartialEq, Eq, Structural)]
pub enum SortBy {
    LastActivity,
    Path,
    Branch,
}

/// A message from a running scan.
pub enum ScanMsg {
    Log(String),
    Done(Result<Vec<RepoInfo>, String>),
}

/// One commit of a repository's history.
#[derive(Debug, Clone)]
pub struct CommitInfo {
    pub short_hash: String,
    pub full_hash: String,
    pub author: String,
    pub date: String,
    pub subject: String,
}

/// The texts of a commit's fields.
pub struct CommitText {
    pub short_hash: Seq<char>,
    pub full_hash: Seq<char>,
    pub author: Seq<char>,
    pub date: Seq<char>,
    pub subject: Seq<char>,
}

impl View for CommitInfo {
    type V = CommitText;

    open spec fn view(&self) -> CommitText {
        CommitText {
            short_hash: self.short_hash@,
            full_hash: self.full_hash@,
            author: self.author@,
            date: self.date@,
            subject: self.subject@,
        }
    }
}

/// The texts of a list of commits.
pub open spec fn commit_texts(v: Seq<CommitInfo>) -> Seq<CommitText> {
    v.map_values(|c: CommitInfo| c@)
}

/// A message from a running history load.
pub enum HistoryMsg {
    Done(Result<Vec<CommitInfo>, String>),
}

} // verus!
