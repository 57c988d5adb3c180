use vstd::prelude::*;

use crate::ident::{is_issued_id, random_issue_id};
use crate::issue::{with_id, with_status, Issue, IssueView};

verus! {

/// Some record of `s` has the identifier `id`.
pub open spec fn has_id(s: Seq<IssueView>, id: Seq<char>) -> bool {
    exists|i: int| 0 <= i < s.len() && #[trigger] s[i].id == id
}

/// No two records of `s` share an identifier.
pub open spec fn ids_distinct(s: Seq<IssueView>) -> bool {
    forall|i: int, j: int|
        0 <= i < s.len() && 0 <= j < s.len() && i != j ==> #[trigger] s[i].id != #[trigger] s[j].id
}

/// The record of `s` stored under `id`, if any.
pub open spec fn lookup(s: Seq<IssueView>, id: Seq<char>) -> Option<IssueView>
    decreases s.len(),
{
    if s.len() == 0 {
        None
    } else if s.last().id == id {
        Some(s.last())
    } else {
        lookup(s.drop_last(), id)
    }
}

/// The length of the longest identifier in `s`.
pub open spec fn max_id_len(s: Seq<IssueView>) -> nat
    decreases s.len(),
{
    if s.len() == 0 {
        0
    } else {
        let m = max_id_len(s.drop_last());
        if s.last().id.len() > m {
            s.last().id.len()
        } else {
            m
        }
    }
}

proof fn lemma_id_len_bounded(s: Seq<IssueView>, i: int)
    requires
        0 <= i < s.len(),
    ensures
        s[i].id.len() <= max_id_len(s),
    decreases s.len(),
{
    if i < s.len() - 1 {
        lemma_id_len_bounded(s.drop_last(), i);
    }
}

/// The records after `p` was stored under the new identifier `id`.
pub open spec fn after_create(s: Seq<IssueView>, p: IssueView, id: Seq<char>) -> Seq<IssueView> {
    s.push(with_id(p, id))
}

/// The records after the status of the record under `id` became `status`.
pub open spec fn after_set_status(s: Seq<IssueView>, id: Seq<char>, status: Seq<char>) -> Seq<
    IssueView,
> {
    s.map_values(|r: IssueView| if r.id == id { with_status(r, status) } else { r })
}

pub open spec fn opt_issue(o: Option<Issue>) -> Option<IssueView> {
    match o {
        Some(r) => Some(r@),
        None => None,
    }
}

/// In a store with distinct identifiers, a record is found under its own identifier.
pub proof fn lemma_lookup_at(s: Seq<IssueView>, i: int)
    requires
        ids_distinct(s),
        0 <= i < s.len(),
    ensures
        lookup(s, s[i].id) == Some(s[i]),
    decreases s.len(),
{
    if i != s.len() - 1 {
        assert(s[i].id != s[s.len() - 1].id);
        let t = s.drop_last();
        assert(t[i] == s[i]);
        lemma_lookup_at(t, i);
    }
}

/// No record is found under an identifier that no record has.
pub proof fn lemma_lookup_absent(s: Seq<IssueView>, id: Seq<char>)
    requires
        !has_id(s, id),
    ensures
        lookup(s, id) == None::<IssueView>,
    decreases s.len(),
{
    if s.len() > 0 {
        let t = s.drop_last();
        assert(s[s.len() - 1].id != id);
        assert forall|i: int| 0 <= i < t.len() implies #[trigger] t[i].id != id by {
            assert(t[i] == s[i]);
        }
        lemma_lookup_absent(t, id);
    }
}

/// The issue records, each under an identifier that no other record has.
pub struct IssueStore {
    issues: Vec<Issue>,
}

impl View for IssueStore {
    type V = Seq<IssueView>;

    closed spec fn view(&self) -> Seq<IssueView> {
        self.issues@.map_values(|r: Issue| r@)
    }
}

impl IssueStore {
    /// The store's invariant: identifiers are unique.
    pub open spec fn wf(&self) -> bool {
        ids_distinct(self@)
    }

    /// An empty store.
    pub fn new() -> (r: IssueStore)
        ensures
            r.wf(),
            r@ == Seq::<IssueView>::empty(),
    {
        let r = IssueStore { issues: Vec::new() };
        assert(r@ =~= Seq::<IssueView>::empty());
        r
    }

    /// The number of records held.
    pub fn len(&self) -> (n: usize)
        ensures
            n == self@.len(),
    {
        self.issues.len()
    }

    /// The position of the record under `id`, if any.
    fn position_of(&self, id: &String) -> (r: Option<usize>)
        ensures
            match r {
                Some(i) => i < self@.len() && self@[i as int].id == id@,
                None => !has_id(self@, id@),
            },
    {
        let mut i: usize = 0;
        while i < self.issues.len()
            invariant
                i <= self.issues@.len(),
                forall|k: int| 0 <= k < i ==> #[trigger] self@[k].id != id@,
            decreases self.issues@.len() - i,
        {
            if self.issues[i].id == *id {
                return Some(i);
            }
            i = i + 1;
        }
        None
    }

    /// Whether a record is stored under `id`.
    pub fn contains_id(&self, id: &String) -> (r: bool)
        ensures
            r == has_id(self@, id@),
    {
        self.position_of(id).is_some()
    }

    /// Stores `issue` under `id` in place of its own identifier, unless `id`
    /// is taken already; returns whether it was stored.
    pub fn insert_with_id(&mut self, id: String, issue: Issue) -> (stored: bool)
        requires
            old(self).wf(),
        ensures
            final(self).wf(),
            stored == !has_id(old(self)@, id@),
            stored ==> final(self)@ == after_create(old(self)@, issue@, id@),
            !stored ==> final(self)@ == old(self)@,
    {
        if self.contains_id(&id) {
            return false;
        }
        let ghost given = issue@;
        let mut rec = issue;
        rec.id = id;
        assert(rec@ == with_id(given, id@));
        self.issues.push(rec);
        assert(self@ =~= after_create(old(self)@, given, id@));
        true
    }

    /// Stores `issue` under a fresh identifier and returns that identifier.
    /// The identifier is a random UUID; in the unlikely case that a record
    /// holds it already, hyphens are appended until no record does.
    pub fn insert(&mut self, issue: Issue) -> (id: String)
        requires
            old(self).wf(),
        ensures
            final(self).wf(),
            is_issued_id(id@),
            id@.len() > 0,
            !has_id(old(self)@, id@),
            final(self)@ == after_create(old(self)@, issue@, id@),
    {
        let mut id = random_issue_id();
        proof {
            assert(id@.take(36) =~= id@);
        }
        while self.contains_id(&id)
            invariant
                self.wf(),
                self@ == old(self)@,
                is_issued_id(id@),
            decreases max_id_len(self@) + 1 - id@.len(),
        {
            proof {
                let i = choose|i: int| 0 <= i < self@.len() && #[trigger] self@[i].id == id@;
                lemma_id_len_bounded(self@, i);
            }
            let ghost prev = id@;
            id.append("-");
            proof {
                reveal_strlit("-");
                assert(id@.take(36) =~= prev.take(36));
            }
        }
        let kept = id.clone();
        let stored = self.insert_with_id(id, issue);
        assert(stored);
        kept
    }

    /// A copy of every record, in the order they were stored.
    pub fn list(&self) -> (r: Vec<Issue>)
        ensures
            r@.map_values(|x: Issue| x@) == self@,
    {
        let mut out: Vec<Issue> = Vec::new();
        let mut i: usize = 0;
        while i < self.issues.len()
            invariant
                i <= self.issues@.len(),
                out@.len() == i,
                out@.map_values(|x: Issue| x@) =~= self@.take(i as int),
            decreases self.issues@.len() - i,
        {
            let rec = self.issues[i].clone();
            proof {
                assert(rec@ == self@[i as int]);
            }
            let ghost prev = out@;
            out.push(rec);
            proof {
                assert forall|k: int| 0 <= k < i implies #[trigger] out@[k]@ == self@[k] by {
                    assert(out@[k] == prev[k]);
                    assert(prev.map_values(|x: Issue| x@)[k] == self@.take(i as int)[k]);
                }
            }
            i = i + 1;
            assert(out@.map_values(|x: Issue| x@) =~= self@.take(i as int));
        }
        assert(self@.take(i as int) =~= self@);
        out
    }

    /// A copy of the record stored under `id`, or `None` if there is none.
    pub fn get(&self, id: &String) -> (r: Option<Issue>)
        requires
            self.wf(),
        ensures
            opt_issue(r) == lookup(self@, id@),
            r is None <==> !has_id(self@, id@),
    {
        match self.position_of(id) {
            Some(i) => {
                proof {
                    lemma_lookup_at(self@, i as int);
                }
                Some(self.issues[i].clone())
            },
            None => {
                proof {
                    lemma_lookup_absent(self@, id@);
                }
                None
            },
        }
    }

    /// Sets the status of the record under `id` to `status` and returns a copy
    /// of the updated record; returns `None`, with the store unchanged, if no
    /// record has that identifier.
    pub fn set_status(&mut self, id: &String, status: String) -> (r: Option<Issue>)
        requires
            old(self).wf(),
        ensures
            final(self).wf(),
            final(self)@ == after_set_status(old(self)@, id@, status@),
            r is None <==> !has_id(old(self)@, id@),
            opt_issue(r) == lookup(final(self)@, id@),
    {
        match self.position_of(id) {
            Some(i) => {
                let mut rec = self.issues[i].clone();
                rec.status = status;
                let out = rec.clone();
                self.issues.set(i, rec);
                proof {
                    let t = after_set_status(old(self)@, id@, status@);
                    assert forall|k: int| 0 <= k < t.len() && k != i implies #[trigger] t[k] == old(self)@[k] by {
                        assert(old(self)@[k].id != old(self)@[i as int].id);
                    }
                    assert(self@ =~= t);
                    lemma_lookup_at(self@, i as int);
                }
                Some(out)
            },
            None => {
                proof {
                    assert(self@ =~= after_set_status(old(self)@, id@, status@));
                    lemma_lookup_absent(self@, id@);
                }
                None
            },
        }
    }
}

} // verus!
