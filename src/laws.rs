use vstd::prelude::*;

use crate::issue::{with_id, with_status, IssueView};
use crate::store::{
    after_create, after_set_status, has_id, ids_distinct, lemma_lookup_absent, lemma_lookup_at,
    lookup,
};

verus! {

/// The records after each payload `ps[k]` was stored, in turn, under `ids[k]`.
pub open spec fn after_creates(s: Seq<IssueView>, ps: Seq<IssueView>, ids: Seq<Seq<char>>) -> Seq<
    IssueView,
>
    decreases ps.len(),
{
    if ps.len() == 0 || ids.len() == 0 {
        s
    } else {
        after_create(after_creates(s, ps.drop_last(), ids.drop_last()), ps.last(), ids.last())
    }
}

/// Each identifier of `ids` is new: held by no record of `s`, and by no
/// earlier entry of `ids`.
pub open spec fn fresh_ids(s: Seq<IssueView>, ids: Seq<Seq<char>>) -> bool {
    &&& forall|k: int| 0 <= k < ids.len() ==> !has_id(s, #[trigger] ids[k])
    &&& forall|j: int, k: int| 0 <= j < k < ids.len() ==> #[trigger] ids[j] != #[trigger] ids[k]
}

/// Looking up in a store that just got one more record.
proof fn lemma_lookup_push(s: Seq<IssueView>, x: IssueView, id: Seq<char>)
    ensures
        lookup(s.push(x), id) == (if x.id == id { Some(x) } else { lookup(s, id) }),
{
    assert(s.push(x).drop_last() =~= s);
}

/// Once a payload has been stored under a new identifier, looking that
/// identifier up gives the payload back with the identifier in place of its
/// own, and identifiers stay unique.
pub proof fn lemma_get_after_create(s: Seq<IssueView>, p: IssueView, id: Seq<char>)
    requires
        ids_distinct(s),
        !has_id(s, id),
    ensures
        lookup(after_create(s, p, id), id) == Some(with_id(p, id)),
        ids_distinct(after_create(s, p, id)),
{
    lemma_lookup_push(s, with_id(p, id), id);
    let t = after_create(s, p, id);
    assert forall|i: int, j: int|
        0 <= i < t.len() && 0 <= j < t.len() && i != j implies #[trigger] t[i].id
        != #[trigger] t[j].id by {
        if i == s.len() {
            assert(s[j].id != id);
        } else if j == s.len() {
            assert(s[i].id != id);
        }
    }
}

/// After N creates with new identifiers, the store holds exactly N more
/// records: the earlier ones unchanged, and one record per create, found
/// under its identifier, with no identifier held twice.
pub proof fn lemma_creates_all_listed(s: Seq<IssueView>, ps: Seq<IssueView>, ids: Seq<Seq<char>>)
    requires
        ids_distinct(s),
        ps.len() == ids.len(),
        fresh_ids(s, ids),
    ensures
        after_creates(s, ps, ids).len() == s.len() + ps.len(),
        ids_distinct(after_creates(s, ps, ids)),
        forall|i: int| 0 <= i < s.len() ==> #[trigger] after_creates(s, ps, ids)[i] == s[i],
        forall|k: int|
            0 <= k < ps.len() ==> #[trigger] after_creates(s, ps, ids)[s.len() + k] == with_id(
                ps[k],
                ids[k],
            ),
        forall|k: int|
            0 <= k < ps.len() ==> lookup(after_creates(s, ps, ids), #[trigger] ids[k]) == Some(
                with_id(ps[k], ids[k]),
            ),
        forall|id: Seq<char>|
            #[trigger] has_id(after_creates(s, ps, ids), id) <==> (has_id(s, id) || ids.contains(
                id,
            )),
    decreases ps.len(),
{
    if ps.len() > 0 {
        let ps0 = ps.drop_last();
        let ids0 = ids.drop_last();
        let n = (ids.len() - 1) as int;
        assert forall|k: int| 0 <= k < ids0.len() implies !has_id(s, #[trigger] ids0[k]) by {
            assert(ids0[k] == ids[k]);
        }
        assert forall|j: int, k: int| 0 <= j < k < ids0.len() implies #[trigger] ids0[j]
            != #[trigger] ids0[k] by {
            assert(ids0[j] == ids[j] && ids0[k] == ids[k]);
        }
        lemma_creates_all_listed(s, ps0, ids0);
        let t = after_creates(s, ps0, ids0);
        let id = ids.last();
        assert(!has_id(t, id)) by {
            if has_id(t, id) {
                assert(!has_id(s, ids[n]));
                let j = choose|j: int| 0 <= j < ids0.len() && ids0[j] == id;
                assert(ids[j] != ids[n]);
            }
        }
        lemma_get_after_create(t, ps.last(), id);
        let r = after_creates(s, ps, ids);
        assert(r == after_create(t, ps.last(), id));
        assert forall|k: int| 0 <= k < ps.len() implies lookup(r, #[trigger] ids[k]) == Some(
            with_id(ps[k], ids[k]),
        ) by {
            lemma_lookup_push(t, with_id(ps.last(), id), ids[k]);
            if k < n {
                assert(ids0[k] == ids[k]);
                assert(ps0[k] == ps[k]);
                assert(ids[k] != id);
            }
        }
        assert forall|k: int| 0 <= k < ps.len() implies #[trigger] r[s.len() + k] == with_id(
            ps[k],
            ids[k],
        ) by {
            if k < n {
                assert(r[s.len() + k] == t[s.len() + k]);
                assert(ps0[k] == ps[k] && ids0[k] == ids[k]);
            }
        }
        assert forall|x: Seq<char>| #[trigger] has_id(r, x) <==> (has_id(s, x) || ids.contains(x)) by {
            if has_id(r, x) {
                let i = choose|i: int| 0 <= i < r.len() && #[trigger] r[i].id == x;
                if i == t.len() {
                    assert(ids[n] == x);
                } else {
                    assert(r[i] == t[i]);
                    assert(has_id(t, x));
                    if !has_id(s, x) {
                        let j = choose|j: int| 0 <= j < ids0.len() && ids0[j] == x;
                        assert(ids[j] == x);
                    }
                }
            }
            if has_id(s, x) {
                let i = choose|i: int| 0 <= i < s.len() && #[trigger] s[i].id == x;
                assert(r[i] == s[i]);
            }
            if ids.contains(x) {
                let j = choose|j: int| 0 <= j < ids.len() && ids[j] == x;
                if j == n {
                    assert(r[t.len() as int].id == x);
                } else {
                    assert(ids0[j] == x);
                    assert(has_id(t, x));
                    let i = choose|i: int| 0 <= i < t.len() && #[trigger] t[i].id == x;
                    assert(r[i] == t[i]);
                }
            }
        }
    }
}

/// Creating the same payloads in another order, starting from an empty
/// store, stores the same records apart from their identifiers: where the
/// second run's payloads are the first run's reordered (`ps2[k] == ps1[perm[k]]`),
/// each record of the second run equals, identifiers aside, the record that
/// the first run made of the same payload.
pub proof fn lemma_create_order_irrelevant(
    ps1: Seq<IssueView>,
    ids1: Seq<Seq<char>>,
    ps2: Seq<IssueView>,
    ids2: Seq<Seq<char>>,
    perm: Seq<int>,
)
    requires
        ps1.len() == ids1.len(),
        ps2.len() == ids2.len(),
        ps1.len() == ps2.len(),
        fresh_ids(Seq::<IssueView>::empty(), ids1),
        fresh_ids(Seq::<IssueView>::empty(), ids2),
        perm.len() == ps2.len(),
        forall|k: int| 0 <= k < perm.len() ==> 0 <= #[trigger] perm[k] < ps1.len(),
        forall|k: int| 0 <= k < perm.len() ==> ps2[k] == ps1[#[trigger] perm[k]],
        forall|j: int, k: int|
            0 <= j < perm.len() && 0 <= k < perm.len() && j != k ==> #[trigger] perm[j]
                != #[trigger] perm[k],
    ensures
        after_creates(Seq::<IssueView>::empty(), ps1, ids1).len() == after_creates(
            Seq::<IssueView>::empty(),
            ps2,
            ids2,
        ).len(),
        forall|k: int|
            0 <= k < perm.len() ==> with_id(
                #[trigger] after_creates(Seq::<IssueView>::empty(), ps2, ids2)[k],
                Seq::empty(),
            ) == with_id(after_creates(Seq::<IssueView>::empty(), ps1, ids1)[perm[k]], Seq::empty()),
{
    let e = Seq::<IssueView>::empty();
    lemma_creates_all_listed(e, ps1, ids1);
    lemma_creates_all_listed(e, ps2, ids2);
    assert forall|k: int| 0 <= k < perm.len() implies with_id(
        #[trigger] after_creates(e, ps2, ids2)[k],
        Seq::empty(),
    ) == with_id(after_creates(e, ps1, ids1)[perm[k]], Seq::empty()) by {
        assert(after_creates(e, ps2, ids2)[e.len() + k] == with_id(ps2[k], ids2[k]));
        let j = perm[k];
        assert(after_creates(e, ps1, ids1)[e.len() + j] == with_id(ps1[j], ids1[j]));
    }
}

/// An identifier that no record has is not found, and setting its status
/// changes nothing.
pub proof fn lemma_unknown_id_not_found(s: Seq<IssueView>, id: Seq<char>, status: Seq<char>)
    requires
        !has_id(s, id),
    ensures
        lookup(s, id) == None::<IssueView>,
        after_set_status(s, id, status) == s,
{
    lemma_lookup_absent(s, id);
    assert(after_set_status(s, id, status) =~= s);
}

/// After the status of a stored record is set to `status`, looking it up
/// gives that record with exactly `status` as its status, whatever the text.
pub proof fn lemma_status_then_get(s: Seq<IssueView>, id: Seq<char>, status: Seq<char>)
    requires
        ids_distinct(s),
        has_id(s, id),
    ensures
        lookup(after_set_status(s, id, status), id) == Some(
            with_status(lookup(s, id).unwrap(), status),
        ),
        lookup(after_set_status(s, id, status), id).unwrap().status == status,
        ids_distinct(after_set_status(s, id, status)),
{
    let i = choose|i: int| 0 <= i < s.len() && #[trigger] s[i].id == id;
    let t = after_set_status(s, id, status);
    assert forall|a: int, b: int|
        0 <= a < t.len() && 0 <= b < t.len() && a != b implies #[trigger] t[a].id
        != #[trigger] t[b].id by {
        assert(s[a].id != s[b].id);
    }
    lemma_lookup_at(s, i);
    lemma_lookup_at(t, i);
}

} // verus!
