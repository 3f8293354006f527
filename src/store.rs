use vstd::prelude::*;

use crate::types::{Email, EmailView, views};

verus! {

/// Record `a`, stored at position `ia`, supersedes record `b`, stored at
/// position `ib`: it was received later, or at the same instant and stored
/// after it.
pub open spec fn supersedes(a: EmailView, ia: int, b: EmailView, ib: int) -> bool {
    a.received_at > b.received_at || (a.received_at == b.received_at && ia > ib)
}

/// Two records addressed to `to` that belong to the same subject thread.
pub open spec fn same_thread(a: EmailView, b: EmailView, to: Seq<char>) -> bool {
    a.to_address == to && b.to_address == to && a.subject == b.subject
}

/// The record at position `i` is addressed to `to` and supersedes every other
/// record of its subject thread.
pub open spec fn is_latest(rows: Seq<EmailView>, to: Seq<char>, i: int) -> bool {
    &&& 0 <= i < rows.len()
    &&& rows[i].to_address == to
    &&& forall|j: int|
        0 <= j < rows.len() && j != i && #[trigger] same_thread(rows[i], rows[j], to)
            ==> supersedes(rows[i], i, rows[j], j)
}

/// The positions among the first `k` rows that hold the latest record of
/// their thread, in store order.
pub open spec fn latest_indices(rows: Seq<EmailView>, to: Seq<char>, k: int) -> Seq<int>
    decreases k,
{
    if k <= 0 {
        Seq::empty()
    } else {
        let p = latest_indices(rows, to, k - 1);
        if is_latest(rows, to, k - 1) {
            p.push(k - 1)
        } else {
            p
        }
    }
}

/// The result of the latest-per-subject query over `rows` (in store order):
/// for recipient `to`, the latest record of each subject, in store order,
/// at most `limit` of them.
pub open spec fn latest_per_subject_spec(rows: Seq<EmailView>, to: Seq<char>, limit: nat) -> Seq<
    EmailView,
> {
    let idx = latest_indices(rows, to, rows.len() as int);
    let sel = if idx.len() <= limit {
        idx
    } else {
        idx.take(limit as int)
    };
    sel.map_values(|i: int| rows[i])
}

/// Positions chosen among the first `k` rows are in range, strictly
/// increasing, and each holds the latest record of its thread.
pub proof fn lemma_latest_indices_wf(rows: Seq<EmailView>, to: Seq<char>, k: int)
    requires
        0 <= k <= rows.len(),
    ensures
        latest_indices(rows, to, k).len() <= k,
        forall|a: int|
            0 <= a < latest_indices(rows, to, k).len() ==> {
                let i = #[trigger] latest_indices(rows, to, k)[a];
                0 <= i < k && is_latest(rows, to, i)
            },
        forall|a: int, b: int|
            0 <= a < b < latest_indices(rows, to, k).len() ==> latest_indices(rows, to, k)[a]
                < latest_indices(rows, to, k)[b],
    decreases k,
{
    if k > 0 {
        lemma_latest_indices_wf(rows, to, k - 1);
    }
}

/// The positions chosen among fewer rows are a prefix of those chosen among
/// more rows.
pub proof fn lemma_latest_indices_prefix(rows: Seq<EmailView>, to: Seq<char>, k: int, m: int)
    requires
        0 <= k <= m <= rows.len(),
    ensures
        latest_indices(rows, to, k).len() <= latest_indices(rows, to, m).len(),
        latest_indices(rows, to, k) == latest_indices(rows, to, m).take(
            latest_indices(rows, to, k).len() as int,
        ),
    decreases m - k,
{
    if k < m {
        lemma_latest_indices_prefix(rows, to, k, m - 1);
        let p = latest_indices(rows, to, m - 1);
        let q = latest_indices(rows, to, m);
        let n = latest_indices(rows, to, k).len() as int;
        assert(q.take(n) =~= p.take(n));
    } else {
        assert(latest_indices(rows, to, k) =~= latest_indices(rows, to, k).take(
            latest_indices(rows, to, k).len() as int,
        ));
    }
}

/// Whether the row at position `i` holds the latest record of its thread for
/// recipient `to`.
fn row_is_latest(rows: &Vec<Email>, to_address: &String, i: usize) -> (r: bool)
    requires
        i < rows.len(),
    ensures
        r == is_latest(views(rows@), to_address@, i as int),
{
    let ghost rv = views(rows@);
    let row = &rows[i];
    if !row.to_address.eq(to_address) {
        return false;
    }
    let mut j: usize = 0;
    while j < rows.len()
        invariant
            i < rows.len(),
            j <= rows.len(),
            rv == views(rows@),
            rv[i as int].to_address == to_address@,
            row@ == rv[i as int],
            forall|j2: int|
                0 <= j2 < j && j2 != i && #[trigger] same_thread(rv[i as int], rv[j2], to_address@)
                    ==> supersedes(rv[i as int], i as int, rv[j2], j2),
        decreases rows.len() - j,
    {
        let other = &rows[j];
        if j != i && other.to_address.eq(to_address) && other.subject.eq(&row.subject) {
            let later = row.received_at.unix_nanos > other.received_at.unix_nanos || (
            row.received_at.unix_nanos == other.received_at.unix_nanos && i > j);
            if !later {
                assert(rv[j as int] == rows@[j as int]@);
                assert(rv[i as int] == rows@[i as int]@);
                assert(same_thread(rv[i as int], rv[j as int], to_address@));
                return false;
            }
        }
        j = j + 1;
    }
    true
}

/// For recipient `to_address`, the latest record of each subject among
/// `rows` (taken in store order), in store order, at most `limit` of them.
/// Of records of one subject received at the same instant, the one stored
/// last counts as the latest.
pub fn latest_per_subject(rows: &Vec<Email>, to_address: &String, limit: usize) -> (r: Vec<Email>)
    ensures
        views(r@) == latest_per_subject_spec(views(rows@), to_address@, limit as nat),
{
    let ghost rv = views(rows@);
    let ghost to = to_address@;
    let mut out: Vec<Email> = Vec::new();
    let mut i: usize = 0;
    while i < rows.len() && out.len() < limit
        invariant
            i <= rows.len(),
            rv == views(rows@),
            to == to_address@,
            out.len() <= limit,
            views(out@) == latest_indices(rv, to, i as int).map_values(|k: int| rv[k]),
        decreases rows.len() - i,
    {
        if row_is_latest(rows, to_address, i) {
            let e = rows[i].duplicate();
            let ghost before = out@;
            out.push(e);
            assert(rv[i as int] == rows@[i as int]@);
            assert(out@ == before.push(e));
            assert(views(out@) =~= views(before).push(e@));
            assert(views(out@) =~= latest_indices(rv, to, i + 1).map_values(|k: int| rv[k]));
        } else {
            assert(latest_indices(rv, to, i + 1) == latest_indices(rv, to, i as int));
        }
        i = i + 1;
    }
    proof {
        let all = latest_indices(rv, to, rv.len() as int);
        let got = latest_indices(rv, to, i as int);
        lemma_latest_indices_prefix(rv, to, i as int, rv.len() as int);
        if i < rows.len() {
            assert(got.len() == limit);
            assert(all.take(limit as int) == got);
        } else {
            assert(got == all);
        }
        assert(views(out@) =~= latest_per_subject_spec(rv, to, limit as nat));
    }
    out
}

/// A position that holds the latest record of its thread is chosen.
pub proof fn lemma_latest_indices_complete(rows: Seq<EmailView>, to: Seq<char>, k: int, i: int)
    requires
        0 <= i < k <= rows.len(),
        is_latest(rows, to, i),
    ensures
        latest_indices(rows, to, k).contains(i),
    decreases k,
{
    if i < k - 1 {
        lemma_latest_indices_complete(rows, to, k - 1, i);
        let p = latest_indices(rows, to, k - 1);
        let w = choose|x: int| 0 <= x < p.len() && p[x] == i;
        if is_latest(rows, to, k - 1) {
            assert(p.push(k - 1)[w] == i);
        }
    } else {
        let p = latest_indices(rows, to, k - 1);
        assert(p.push(k - 1)[p.len() as int] == i);
    }
}

/// The query returns at most `limit` records, all addressed to `to`, no two
/// of the same subject, each taken from the store and received no earlier
/// than any stored record of its subject for `to`.
pub proof fn lemma_latest_per_subject_sound(rows: Seq<EmailView>, to: Seq<char>, limit: nat)
    ensures
        latest_per_subject_spec(rows, to, limit).len() <= limit,
        forall|a: int|
            0 <= a < latest_per_subject_spec(rows, to, limit).len() ==> {
                let e = #[trigger] latest_per_subject_spec(rows, to, limit)[a];
                &&& e.to_address == to
                &&& rows.contains(e)
                &&& forall|j: int|
                    0 <= j < rows.len() && rows[j].to_address == to && rows[j].subject == e.subject
                        ==> rows[j].received_at <= e.received_at
            },
        forall|a: int, b: int|
            0 <= a < b < latest_per_subject_spec(rows, to, limit).len()
                ==> latest_per_subject_spec(rows, to, limit)[a].subject
                != latest_per_subject_spec(rows, to, limit)[b].subject,
{
    let res = latest_per_subject_spec(rows, to, limit);
    let idx = latest_indices(rows, to, rows.len() as int);
    lemma_latest_indices_wf(rows, to, rows.len() as int);
    assert forall|a: int| 0 <= a < res.len() implies res[a] == rows[idx[a]] && 0 <= idx[a] < rows.len()
        && is_latest(rows, to, idx[a]) by {}
    assert forall|a: int| 0 <= a < res.len() implies {
        let e = #[trigger] res[a];
        &&& e.to_address == to
        &&& rows.contains(e)
        &&& forall|j: int|
            0 <= j < rows.len() && rows[j].to_address == to && rows[j].subject == e.subject
                ==> rows[j].received_at <= e.received_at
    } by {
        let i = idx[a];
        assert(rows[i] == res[a]);
        assert forall|j: int|
            0 <= j < rows.len() && rows[j].to_address == to && rows[j].subject == res[a].subject
            implies rows[j].received_at <= res[a].received_at by {
            if j != i {
                assert(same_thread(rows[i], rows[j], to));
            }
        }
    }
    assert forall|a: int, b: int| 0 <= a < b < res.len() implies res[a].subject
        != res[b].subject by {
        let ia = idx[a];
        let ib = idx[b];
        if res[a].subject == res[b].subject {
            assert(same_thread(rows[ia], rows[ib], to));
            assert(same_thread(rows[ib], rows[ia], to));
        }
    }
}

/// The subjects of the stored records addressed to `to`.
pub open spec fn subjects_for(rows: Seq<EmailView>, to: Seq<char>) -> Set<Seq<char>> {
    Set::new(|s: Seq<char>| exists|j: int| 0 <= j < rows.len() && rows[j].to_address == to && rows[j].subject == s)
}

/// Before truncation, the selection holds at most one record per subject of
/// the recipient.
pub proof fn lemma_selection_within_subjects(rows: Seq<EmailView>, to: Seq<char>)
    ensures
        subjects_for(rows, to).finite(),
        latest_indices(rows, to, rows.len() as int).len() <= subjects_for(rows, to).len(),
{
    let idx = latest_indices(rows, to, rows.len() as int);
    lemma_latest_indices_wf(rows, to, rows.len() as int);
    let subj = idx.map_values(|i: int| rows[i].subject);
    let all = rows.map_values(|e: EmailView| e.subject);
    let sf = subjects_for(rows, to);
    assert forall|a: int, b: int| 0 <= a < subj.len() && 0 <= b < subj.len() && a != b implies subj[a]
        != subj[b] by {
        let (x, y) = if a < b { (a, b) } else { (b, a) };
        let ix = idx[x];
        let iy = idx[y];
        if subj[a] == subj[b] {
            assert(same_thread(rows[ix], rows[iy], to));
            assert(same_thread(rows[iy], rows[ix], to));
        }
    }
    assert(subj.no_duplicates());
    subj.unique_seq_to_set();
    assert forall|s: Seq<char>| sf.contains(s) implies all.to_set().contains(s) by {
        let j = choose|j: int| 0 <= j < rows.len() && rows[j].to_address == to && rows[j].subject == s;
        assert(all[j] == s);
    }
    vstd::seq_lib::seq_to_set_is_finite(all);
    vstd::set_lib::lemma_len_subset(sf, all.to_set());
    assert forall|s: Seq<char>| subj.to_set().contains(s) implies sf.contains(s) by {
        let a = choose|a: int| 0 <= a < subj.len() && subj[a] == s;
        let i = idx[a];
        assert(rows[i].to_address == to && rows[i].subject == s);
    }
    vstd::set_lib::lemma_len_subset(subj.to_set(), sf);
}

/// Of two records of one subject for `to`, the one received earlier is never
/// returned; where no other record shares that subject and `limit` is at
/// least the number of the recipient's subjects, the one received later is
/// returned.
pub proof fn lemma_later_record_wins(
    rows: Seq<EmailView>,
    to: Seq<char>,
    limit: nat,
    later: int,
    earlier: int,
)
    requires
        0 <= later < rows.len(),
        0 <= earlier < rows.len(),
        same_thread(rows[later], rows[earlier], to),
        rows[later].received_at > rows[earlier].received_at,
    ensures
        !latest_per_subject_spec(rows, to, limit).contains(rows[earlier]),
        (forall|j: int|
            0 <= j < rows.len() && j != later && j != earlier ==> !same_thread(
                rows[later],
                rows[j],
                to,
            )) && limit >= subjects_for(rows, to).len() ==> latest_per_subject_spec(rows, to, limit).contains(
            rows[later],
        ),
{
    let res = latest_per_subject_spec(rows, to, limit);
    let idx = latest_indices(rows, to, rows.len() as int);
    lemma_latest_indices_wf(rows, to, rows.len() as int);
    if res.contains(rows[earlier]) {
        let a = choose|a: int| 0 <= a < res.len() && res[a] == rows[earlier];
        let i = idx[a];
        assert(res[a] == rows[i]);
        assert(same_thread(rows[i], rows[later], to));
        assert(false);
    }
    if (forall|j: int|
        0 <= j < rows.len() && j != later && j != earlier ==> !same_thread(rows[later], rows[j], to))
        && limit >= subjects_for(rows, to).len() {
        lemma_selection_within_subjects(rows, to);
        assert forall|j: int|
            0 <= j < rows.len() && j != later && #[trigger] same_thread(rows[later], rows[j], to)
            implies supersedes(rows[later], later, rows[j], j) by {}
        assert(is_latest(rows, to, later));
        lemma_latest_indices_complete(rows, to, rows.len() as int, later);
        let w = choose|w: int| 0 <= w < idx.len() && idx[w] == later;
        assert(res[w] == rows[later]);
    }
}

/// Where the store's ids increase in store order, the query's result is in
/// ascending id order.
pub proof fn lemma_latest_per_subject_ordered(rows: Seq<EmailView>, to: Seq<char>, limit: nat)
    requires
        forall|i: int, j: int| 0 <= i < j < rows.len() ==> rows[i].id < rows[j].id,
    ensures
        forall|a: int, b: int|
            0 <= a < b < latest_per_subject_spec(rows, to, limit).len()
                ==> latest_per_subject_spec(rows, to, limit)[a].id < latest_per_subject_spec(
                rows,
                to,
                limit,
            )[b].id,
{
    let res = latest_per_subject_spec(rows, to, limit);
    let idx = latest_indices(rows, to, rows.len() as int);
    lemma_latest_indices_wf(rows, to, rows.len() as int);
    assert forall|a: int, b: int| 0 <= a < b < res.len() implies res[a].id < res[b].id by {
        assert(res[a] == rows[idx[a]]);
        assert(res[b] == rows[idx[b]]);
    }
}

/// On a fixed store, the result for a smaller limit is a prefix of the
/// result for a larger one.
pub proof fn lemma_smaller_limit_is_prefix(
    rows: Seq<EmailView>,
    to: Seq<char>,
    small: nat,
    large: nat,
)
    requires
        small <= large,
    ensures
        latest_per_subject_spec(rows, to, small).len() <= latest_per_subject_spec(
            rows,
            to,
            large,
        ).len(),
        latest_per_subject_spec(rows, to, small) == latest_per_subject_spec(rows, to, large).take(
            latest_per_subject_spec(rows, to, small).len() as int,
        ),
{
    let s = latest_per_subject_spec(rows, to, small);
    let l = latest_per_subject_spec(rows, to, large);
    assert(s =~= l.take(s.len() as int));
}

/// Whether a record is addressed to `to`.
pub open spec fn for_recipient(to: Seq<char>) -> spec_fn(EmailView) -> bool {
    |e: EmailView| e.to_address == to
}

/// No two records addressed to `to` share a subject.
pub open spec fn subjects_distinct(rows: Seq<EmailView>, to: Seq<char>) -> bool {
    forall|i: int, j: int|
        0 <= i < j < rows.len() && rows[i].to_address == to && rows[j].to_address == to
            ==> rows[i].subject != rows[j].subject
}

proof fn lemma_distinct_selection_prefix(rows: Seq<EmailView>, to: Seq<char>, k: int)
    requires
        0 <= k <= rows.len(),
        subjects_distinct(rows, to),
    ensures
        latest_indices(rows, to, k).map_values(|i: int| rows[i]) == rows.take(k).filter(
            for_recipient(to),
        ),
    decreases k,
{
    reveal(Seq::filter);
    let p = for_recipient(to);
    if k > 0 {
        lemma_distinct_selection_prefix(rows, to, k - 1);
        let t = rows.take(k);
        assert(t.drop_last() =~= rows.take(k - 1));
        assert(t.last() == rows[k - 1]);
        let prev = latest_indices(rows, to, k - 1);
        assert(t.len() > 0);
        assert(t.filter(p) == (if p(t.last()) {
            t.drop_last().filter(p).push(t.last())
        } else {
            t.drop_last().filter(p)
        }));
        assert(p(rows[k - 1]) == (rows[k - 1].to_address == to));
        if rows[k - 1].to_address == to {
            assert forall|j: int|
                0 <= j < rows.len() && j != k - 1 && #[trigger] same_thread(rows[k - 1], rows[j], to)
                implies supersedes(rows[k - 1], k - 1, rows[j], j) by {
                if j < k - 1 {
                    assert(rows[j].subject != rows[k - 1].subject);
                } else {
                    assert(rows[k - 1].subject != rows[j].subject);
                }
            }
            assert(is_latest(rows, to, k - 1));
            assert(prev.push(k - 1).map_values(|i: int| rows[i]) =~= prev.map_values(
                |i: int| rows[i],
            ).push(rows[k - 1]));
        }
    } else {
        assert(rows.take(0) =~= Seq::<EmailView>::empty());
        assert(latest_indices(rows, to, 0).map_values(|i: int| rows[i]) =~= Seq::<
            EmailView,
        >::empty());
    }
}

/// Where no two of the recipient's records share a subject, the query returns
/// the recipient's records in store order, cut at `limit`.
pub proof fn lemma_distinct_subjects_in_store_order(rows: Seq<EmailView>, to: Seq<char>, limit: nat)
    requires
        subjects_distinct(rows, to),
    ensures
        ({
            let mine = rows.filter(for_recipient(to));
            latest_per_subject_spec(rows, to, limit) == if mine.len() <= limit {
                mine
            } else {
                mine.take(limit as int)
            }
        }),
{
    lemma_distinct_selection_prefix(rows, to, rows.len() as int);
    assert(rows.take(rows.len() as int) =~= rows);
    let idx = latest_indices(rows, to, rows.len() as int);
    let mine = rows.filter(for_recipient(to));
    assert(idx.map_values(|i: int| rows[i]) == mine);
    if idx.len() > limit {
        assert(idx.take(limit as int).map_values(|i: int| rows[i]) =~= mine.take(limit as int));
    }
}

} // verus!
