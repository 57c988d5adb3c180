use vstd::prelude::*;

use crate::issue::{Issue, IssueView};

verus! {

/// What the client shows of one issue: a read-only card.
#[derive(Debug, PartialEq, Eq)]
pub struct IssueCard {
    pub title: String,
    pub description: String,
    pub category: String,
    pub severity: String,
    pub status: String,
}

/// The card shows exactly these fields of the record.
pub open spec fn card_shows(c: IssueCard, r: IssueView) -> bool {
    &&& c.title@ == r.title
    &&& c.description@ == r.description
    &&& c.category@ == r.category
    &&& c.severity@ == r.severity
    &&& c.status@ == r.status
}

/// What happens to the client's issue list.
pub enum ListEvent {
    /// The list was asked for.
    FetchStarted,
    /// The list came back with these records.
    FetchFinished(Vec<Issue>),
}

/// The client's issue list: a loading flag and the records fetched last.
pub struct IssueList {
    pub loading: bool,
    pub issues: Vec<Issue>,
}

impl IssueList {
    /// The list before anything was fetched: empty, not loading.
    pub fn new() -> (r: IssueList)
        ensures
            !r.loading,
            r.issues@.len() == 0,
    {
        IssueList { loading: false, issues: Vec::new() }
    }

    /// Moves the list on by one event: a fetch that starts sets the loading
    /// flag and keeps the records; one that finishes clears the flag and
    /// replaces the records by what came back.
    pub fn apply(&mut self, event: ListEvent)
        ensures
            match event {
                ListEvent::FetchStarted => {
                    &&& final(self).loading
                    &&& final(self).issues == old(self).issues
                },
                ListEvent::FetchFinished(v) => {
                    &&& !final(self).loading
                    &&& final(self).issues == v
                },
            },
    {
        match event {
            ListEvent::FetchStarted => {
                self.loading = true;
            },
            ListEvent::FetchFinished(v) => {
                self.issues = v;
                self.loading = false;
            },
        }
    }

    /// The cards to show, one per record in order; `None` while loading,
    /// when the client shows a loading indicator instead.
    pub fn cards(&self) -> (r: Option<Vec<IssueCard>>)
        ensures
            self.loading <==> r is None,
            match r {
                Some(cs) => {
                    &&& cs@.len() == self.issues@.len()
                    &&& forall|k: int|
                        0 <= k < cs@.len() ==> card_shows(#[trigger] cs@[k], self.issues@[k]@)
                },
                None => true,
            },
    {
        if self.loading {
            return None;
        }
        let mut cs: Vec<IssueCard> = Vec::new();
        let mut i: usize = 0;
        while i < self.issues.len()
            invariant
                i <= self.issues@.len(),
                cs@.len() == i,
                forall|k: int| 0 <= k < i ==> card_shows(#[trigger] cs@[k], self.issues@[k]@),
            decreases self.issues@.len() - i,
        {
            let r = &self.issues[i];
            let c = IssueCard {
                title: r.title.clone(),
                description: r.description.clone(),
                category: r.category.clone(),
                severity: r.severity.clone(),
                status: r.status.clone(),
            };
            cs.push(c);
            i = i + 1;
        }
        Some(cs)
    }
}

} // verus!
