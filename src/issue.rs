use vstd::prelude::*;

verus! {

/// A point on the map. Each coordinate is held as the IEEE-754 bit pattern of
/// a double (`f64::to_bits`); the library carries it through unchanged.
#[derive(Clone, Copy, Debug, PartialEq, Eq, Structural)]
pub struct Location {
    pub latitude_bits: u64,
    pub longitude_bits: u64,
}

/// A reported problem.
#[derive(Debug, PartialEq, Eq)]
pub struct Issue {
    pub id: String,
    pub title: String,
    pub description: String,
    pub location: Location,
    pub category: String,
    pub severity: String,
    pub status: String,
    pub reported_by: String,
    pub created_at: String,
    pub image_url: Option<String>,
}

/// A registered user. No operation of the store reads or writes users.
#[derive(Debug, PartialEq, Eq)]
pub struct User {
    pub id: String,
    pub username: String,
    pub email: String,
    pub points: i32,
}

/// The mathematical value of an [`Issue`]: every text field as its characters.
pub struct IssueView {
    pub id: Seq<char>,
    pub title: Seq<char>,
    pub description: Seq<char>,
    pub location: Location,
    pub category: Seq<char>,
    pub severity: Seq<char>,
    pub status: Seq<char>,
    pub reported_by: Seq<char>,
    pub created_at: Seq<char>,
    pub image_url: Option<Seq<char>>,
}

pub open spec fn opt_text(o: Option<String>) -> Option<Seq<char>> {
    match o {
        Some(s) => Some(s@),
        None => None,
    }
}

impl View for Issue {
    type V = IssueView;

    open spec fn view(&self) -> IssueView {
        IssueView {
            id: self.id@,
            title: self.title@,
            description: self.description@,
            location: self.location,
            category: self.category@,
            severity: self.severity@,
            status: self.status@,
            reported_by: self.reported_by@,
            created_at: self.created_at@,
            image_url: opt_text(self.image_url),
        }
    }
}

/// The record `r` under the identifier `id`, all other fields kept.
pub open spec fn with_id(r: IssueView, id: Seq<char>) -> IssueView {
    IssueView { id: id, ..r }
}

/// The record `r` with its status replaced by `status`, all other fields kept.
pub open spec fn with_status(r: IssueView, status: Seq<char>) -> IssueView {
    IssueView { status: status, ..r }
}

fn clone_opt_text(o: &Option<String>) -> (r: Option<String>)
    ensures
        r == *o,
{
    match o {
        Some(s) => Some(s.clone()),
        None => None,
    }
}

impl Clone for Issue {
    fn clone(&self) -> (r: Self)
        ensures
            r == *self,
    {
        Issue {
            id: self.id.clone(),
            title: self.title.clone(),
            description: self.description.clone(),
            location: self.location,
            category: self.category.clone(),
            severity: self.severity.clone(),
            status: self.status.clone(),
            reported_by: self.reported_by.clone(),
            created_at: self.created_at.clone(),
            image_url: clone_opt_text(&self.image_url),
        }
    }
}

} // verus!
