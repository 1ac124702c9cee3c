//! The order in which a list shows its items: by a column's text, or the
//! latest item first.
use vstd::multiset::Multiset;
use vstd::prelude::*;

use crate::list::{SortColumn, SortListKind, SortStatus, offered};
use crate::list::is_offered;
use crate::text::chars_of;

verus! {

broadcast use vstd::seq_lib::group_to_multiset_ensures;

/// An item to be ordered: its key, the text of the column it is sorted by
/// (its key when no column is), and its creation time in nanoseconds.
pub type Entry = (String, String, Option<i128>);

/// The view of an entry.
pub open spec fn entry_view(e: Entry) -> (Seq<char>, Seq<char>, Option<i128>) {
    (e.0@, e.1@, e.2)
}

/// `a` comes strictly before `b` in the lexicographic order of characters
/// (for UTF-8 text the same as the byte order that `Ord for String` uses).
pub open spec fn text_before(a: Seq<char>, b: Seq<char>) -> bool
    decreases a.len(),
{
    if a.len() == 0 {
        b.len() > 0
    } else if b.len() == 0 {
        false
    } else if a[0] != b[0] {
        a[0] < b[0]
    } else {
        text_before(a.drop_first(), b.drop_first())
    }
}

pub proof fn lemma_text_before_irreflexive(a: Seq<char>)
    ensures
        !text_before(a, a),
    decreases a.len(),
{
    if a.len() > 0 {
        lemma_text_before_irreflexive(a.drop_first());
    }
}

pub proof fn lemma_text_before_asymmetric(a: Seq<char>, b: Seq<char>)
    ensures
        !(text_before(a, b) && text_before(b, a)),
    decreases a.len(),
{
    if a.len() > 0 && b.len() > 0 && a[0] == b[0] {
        lemma_text_before_asymmetric(a.drop_first(), b.drop_first());
    }
}

pub proof fn lemma_text_before_total(a: Seq<char>, b: Seq<char>)
    ensures
        a == b || text_before(a, b) || text_before(b, a),
    decreases a.len(),
{
    if a.len() > 0 && b.len() > 0 && a[0] == b[0] {
        lemma_text_before_total(a.drop_first(), b.drop_first());
        if a.drop_first() == b.drop_first() {
            assert(a =~= seq![a[0]] + a.drop_first());
            assert(b =~= seq![b[0]] + b.drop_first());
        }
    } else if a.len() == 0 && b.len() == 0 {
        assert(a =~= b);
    }
}

pub proof fn lemma_text_before_transitive(a: Seq<char>, b: Seq<char>, c: Seq<char>)
    requires
        text_before(a, b),
        text_before(b, c),
    ensures
        text_before(a, c),
    decreases a.len(),
{
    if a.len() > 0 && b.len() > 0 && c.len() > 0 && a[0] == b[0] && b[0] == c[0] {
        lemma_text_before_transitive(a.drop_first(), b.drop_first(), c.drop_first());
    }
}

/// The text order is the dictionary order of characters: a text comes
/// before every longer text it starts, and at the first place two texts
/// differ the one with the lower character comes first.
pub proof fn law_text_order_is_dictionary_order(a: Seq<char>, b: Seq<char>, k: int)
    requires
        0 <= k <= a.len(),
        k <= b.len(),
        forall|q: int| 0 <= q < k ==> a[q] == b[q],
    ensures
        (k == a.len() && k < b.len()) ==> text_before(a, b),
        (k < a.len() && k < b.len() && a[k] < b[k]) ==> text_before(a, b),
        (k < a.len() && k < b.len() && a[k] > b[k]) ==> !text_before(a, b),
    decreases k,
{
    if k > 0 {
        assert forall|q: int| 0 <= q < k - 1 implies a.drop_first()[q] == b.drop_first()[q] by {
            assert(a[q + 1] == b[q + 1]);
        }
        law_text_order_is_dictionary_order(a.drop_first(), b.drop_first(), k - 1);
        assert(a[0] == b[0]);
    }
}

/// Whether `a` comes strictly before `b` in the text order.
pub fn text_is_before(a: &str, b: &str) -> (r: bool)
    ensures
        r == text_before(a@, b@),
{
    let x = chars_of(a);
    let y = chars_of(b);
    let mut i: usize = 0;
    assert(a@.skip(0) =~= a@);
    assert(b@.skip(0) =~= b@);
    while i < x.len() && i < y.len() && x[i] == y[i]
        invariant
            0 <= i <= x@.len(),
            i <= y@.len(),
            x@ == a@,
            y@ == b@,
            text_before(a@, b@) == text_before(a@.skip(i as int), b@.skip(i as int)),
        decreases x@.len() - i,
    {
        assert(a@.skip(i as int).drop_first() =~= a@.skip(i + 1));
        assert(b@.skip(i as int).drop_first() =~= b@.skip(i + 1));
        i = i + 1;
    }
    if i == x.len() {
        i < y.len()
    } else if i == y.len() {
        false
    } else {
        x[i] < y[i]
    }
}

/// The texts of a list of strings.
pub open spec fn texts_view(v: Seq<String>) -> Seq<Seq<char>> {
    v.map_values(|s: String| s@)
}

/// No text comes before one ahead of it.
pub open spec fn texts_sorted(v: Seq<Seq<char>>) -> bool {
    forall|i: int, j: int| 0 <= i < j < v.len() ==> !text_before(#[trigger] v[j], #[trigger] v[i])
}

/// Sorts texts in the text order (the order of `Ord for String`).
pub fn sort_texts(v: Vec<String>) -> (r: Vec<String>)
    ensures
        texts_view(r@).to_multiset() == texts_view(v@).to_multiset(),
        texts_sorted(texts_view(r@)),
{
    let ghost start = texts_view(v@);
    let mut rest = v;
    let mut out: Vec<String> = Vec::new();
    proof {
        assert(texts_view(out@).to_multiset() =~= Multiset::empty());
        assert(texts_view(out@).to_multiset().add(texts_view(rest@).to_multiset()) =~= start.to_multiset());
    }
    while rest.len() > 0
        invariant
            texts_view(out@).to_multiset().add(texts_view(rest@).to_multiset()) == start.to_multiset(),
            texts_sorted(texts_view(out@)),
        decreases rest@.len(),
    {
        let ghost before_rest = rest@;
        let x = rest.remove(0);
        proof {
            assert(texts_view(before_rest).remove(0) =~= texts_view(rest@));
            vstd::seq_lib::to_multiset_remove(texts_view(before_rest), 0);
            assert(texts_view(before_rest).to_multiset() == texts_view(rest@).to_multiset().insert(x@));
        }
        let mut p: usize = 0;
        while p < out.len() && !text_is_before(x.as_str(), out[p].as_str())
            invariant
                0 <= p <= out@.len(),
                forall|k: int| 0 <= k < p ==> !text_before(x@, #[trigger] texts_view(out@)[k]),
            decreases out@.len() - p,
        {
            p = p + 1;
        }
        let ghost old_out = texts_view(out@);
        let ghost xv = x@;
        out.insert(p, x);
        proof {
            let o = texts_view(out@);
            assert(o =~= old_out.insert(p as int, xv));
            vstd::seq_lib::to_multiset_insert(old_out, p as int, xv);
            assert(o.to_multiset().add(texts_view(rest@).to_multiset()) =~= old_out.to_multiset().add(
                texts_view(before_rest).to_multiset(),
            ));
            assert forall|i: int, j: int| 0 <= i < j < o.len() implies !text_before(
                #[trigger] o[j],
                #[trigger] o[i],
            ) by {
                if j < p {
                    assert(o[i] == old_out[i] && o[j] == old_out[j]);
                } else if j == p {
                    assert(o[i] == old_out[i]);
                    assert(!text_before(xv, old_out[i]));
                } else if i == p {
                    assert(o[j] == old_out[j - 1]);
                    assert(text_before(xv, old_out[p as int]));
                    if text_before(old_out[j - 1], xv) {
                        lemma_text_before_transitive(old_out[j - 1], xv, old_out[p as int]);
                        if j - 1 > p {
                            assert(!text_before(old_out[j - 1], old_out[p as int]));
                        } else {
                            lemma_text_before_irreflexive(old_out[j - 1]);
                        }
                    }
                } else if i < p {
                    assert(o[i] == old_out[i] && o[j] == old_out[j - 1]);
                } else {
                    assert(o[i] == old_out[i - 1] && o[j] == old_out[j - 1]);
                }
            }
        }
    }
    proof {
        assert(texts_view(rest@).to_multiset() =~= Multiset::empty());
        assert(texts_view(out@).to_multiset().add(texts_view(rest@).to_multiset()) =~= texts_view(
            out@,
        ).to_multiset());
    }
    out
}

/// A creation time later than another; a missing time is earlier than any.
pub open spec fn time_after(x: Option<i128>, y: Option<i128>) -> bool {
    match (x, y) {
        (Some(a), Some(b)) => a > b,
        (Some(_), None) => true,
        _ => false,
    }
}

/// The order of a list sorted by a column: the column's text (ascending or
/// descending), then the newer item first, then by key.
pub open spec fn column_before(
    a: (Seq<char>, Seq<char>, Option<i128>),
    b: (Seq<char>, Seq<char>, Option<i128>),
    ascending: bool,
) -> bool {
    ||| (if ascending {
        text_before(a.1, b.1)
    } else {
        text_before(b.1, a.1)
    })
    ||| (a.1 == b.1 && time_after(a.2, b.2))
    ||| (a.1 == b.1 && a.2 == b.2 && text_before(a.0, b.0))
}

/// Sorted by the column order: no item comes before one that precedes it.
pub open spec fn column_sorted(s: Seq<Entry>, ascending: bool) -> bool {
    forall|i: int, j: int|
        0 <= i < j < s.len() ==> !column_before(
            #[trigger] entry_view(s[j]),
            #[trigger] entry_view(s[i]),
            ascending,
        )
}

/// The latest-first order: of two items with creation times the newer one,
/// otherwise the one with the greater key.
pub open spec fn latest_before(
    a: (Seq<char>, Seq<char>, Option<i128>),
    b: (Seq<char>, Seq<char>, Option<i128>),
) -> bool {
    if a.2 is Some && b.2 is Some {
        a.2->0 > b.2->0
    } else {
        text_before(b.0, a.0)
    }
}

/// Each item is in latest-first order with the next one.
pub open spec fn latest_sorted(s: Seq<Entry>) -> bool {
    forall|i: int|
        0 <= i < s.len() - 1 ==> !latest_before(
            entry_view(#[trigger] s[i + 1]),
            entry_view(s[i]),
        )
}

pub proof fn lemma_column_before_transitive(
    a: (Seq<char>, Seq<char>, Option<i128>),
    b: (Seq<char>, Seq<char>, Option<i128>),
    c: (Seq<char>, Seq<char>, Option<i128>),
    ascending: bool,
)
    requires
        column_before(a, b, ascending),
        column_before(b, c, ascending),
    ensures
        column_before(a, c, ascending),
{
    if ascending {
        if text_before(a.1, b.1) && text_before(b.1, c.1) {
            lemma_text_before_transitive(a.1, b.1, c.1);
        }
    } else {
        if text_before(b.1, a.1) && text_before(c.1, b.1) {
            lemma_text_before_transitive(c.1, b.1, a.1);
        }
    }
    if a.1 == b.1 && b.1 == c.1 && a.2 == b.2 && b.2 == c.2 && text_before(a.0, b.0)
        && text_before(b.0, c.0) {
        lemma_text_before_transitive(a.0, b.0, c.0);
    }
}

pub proof fn lemma_column_before_asymmetric(
    a: (Seq<char>, Seq<char>, Option<i128>),
    b: (Seq<char>, Seq<char>, Option<i128>),
    ascending: bool,
)
    ensures
        !(column_before(a, b, ascending) && column_before(b, a, ascending)),
{
    lemma_text_before_asymmetric(a.1, b.1);
    lemma_text_before_asymmetric(a.0, b.0);
    lemma_text_before_irreflexive(a.1);
}

/// The views of the entries.
pub open spec fn entry_views(s: Seq<Entry>) -> Seq<(Seq<char>, Seq<char>, Option<i128>)> {
    s.map_values(|e: Entry| entry_view(e))
}

/// Of two different views, one comes before the other in the column order.
pub proof fn lemma_column_before_total(
    a: (Seq<char>, Seq<char>, Option<i128>),
    b: (Seq<char>, Seq<char>, Option<i128>),
    ascending: bool,
)
    ensures
        a == b || column_before(a, b, ascending) || column_before(b, a, ascending),
{
    lemma_text_before_total(a.1, b.1);
    lemma_text_before_total(a.0, b.0);
    if a.0 == b.0 && a.1 == b.1 && a.2 == b.2 {
        assert(a == b);
    }
}

/// Two lists sorted by the column order that hold the same entries show
/// them the same: the order a list's rows were given in does not matter.
pub proof fn law_column_order_is_unique(s1: Seq<Entry>, s2: Seq<Entry>, ascending: bool)
    requires
        column_sorted(s1, ascending),
        column_sorted(s2, ascending),
        s1.to_multiset() == s2.to_multiset(),
    ensures
        entry_views(s1) == entry_views(s2),
    decreases s1.len(),
{
    broadcast use vstd::seq_lib::group_to_multiset_ensures;

    vstd::seq_lib::to_multiset_len(s1);
    vstd::seq_lib::to_multiset_len(s2);
    if s1.len() == 0 {
        assert(entry_views(s1) =~= entry_views(s2));
        return;
    }
    let a = s1[0];
    let b = s2[0];
    vstd::seq_lib::to_multiset_contains(s1, a);
    vstd::seq_lib::to_multiset_contains(s2, a);
    assert(s1.contains(a)) by {
        assert(s1[0] == a);
    }
    let j = choose|j: int| 0 <= j < s2.len() && s2[j] == a;
    if j > 0 {
        assert(!column_before(entry_view(s2[j]), entry_view(s2[0]), ascending));
    }
    vstd::seq_lib::to_multiset_contains(s1, b);
    assert(s2.contains(b)) by {
        assert(s2[0] == b);
    }
    let i = choose|i: int| 0 <= i < s1.len() && s1[i] == b;
    if i > 0 {
        assert(!column_before(entry_view(s1[i]), entry_view(s1[0]), ascending));
    }
    lemma_column_before_total(entry_view(a), entry_view(b), ascending);
    lemma_column_before_asymmetric(entry_view(a), entry_view(b), ascending);
    assert(entry_view(a) == entry_view(b));
    // put `a` first in the second list: its views stay the same
    let t2 = s2.update(j, b).update(0, a);
    vstd::seq_lib::to_multiset_update(s2, j, b);
    vstd::seq_lib::to_multiset_update(s2.update(j, b), 0, a);
    assert(t2.to_multiset() =~= s2.to_multiset()) by {
        broadcast use vstd::multiset::group_multiset_axioms;
    }
    assert(entry_views(t2) =~= entry_views(s2)) by {
        assert forall|k: int| 0 <= k < t2.len() implies entry_view(#[trigger] t2[k]) == entry_view(s2[k]) by {
            if k == 0 {
            } else if k == j {
            } else {
            }
        }
    }
    let r1 = s1.drop_first();
    let r2 = t2.drop_first();
    assert(s1.remove(0) =~= r1);
    assert(t2.remove(0) =~= r2);
    vstd::seq_lib::to_multiset_remove(s1, 0);
    vstd::seq_lib::to_multiset_remove(t2, 0);
    assert forall|p: int, q: int| 0 <= p < q < r1.len() implies !column_before(
        #[trigger] entry_view(r1[q]),
        #[trigger] entry_view(r1[p]),
        ascending,
    ) by {
        assert(r1[q] == s1[q + 1] && r1[p] == s1[p + 1]);
    }
    assert forall|p: int, q: int| 0 <= p < q < t2.len() implies !column_before(
        #[trigger] entry_view(t2[q]),
        #[trigger] entry_view(t2[p]),
        ascending,
    ) by {
        assert(entry_view(t2[q]) == entry_view(s2[q]));
        assert(entry_view(t2[p]) == entry_view(s2[p]));
    }
    assert forall|p: int, q: int| 0 <= p < q < r2.len() implies !column_before(
        #[trigger] entry_view(r2[q]),
        #[trigger] entry_view(r2[p]),
        ascending,
    ) by {
        assert(r2[q] == t2[q + 1] && r2[p] == t2[p + 1]);
    }
    law_column_order_is_unique(r1, r2, ascending);
    assert forall|k: int| 0 <= k < s1.len() implies entry_views(s1)[k] == entry_views(t2)[k] by {
        if k > 0 {
            assert(entry_views(r1)[k - 1] == entry_views(r2)[k - 1]);
        }
    }
    assert(entry_views(s1) =~= entry_views(t2));
}

/// Whether `a` comes strictly before `b` in the column order.
fn column_is_before(a: &Entry, b: &Entry, ascending: bool) -> (r: bool)
    ensures
        r == column_before(entry_view(*a), entry_view(*b), ascending),
{
    let by_text = if ascending {
        text_is_before(a.1.as_str(), b.1.as_str())
    } else {
        text_is_before(b.1.as_str(), a.1.as_str())
    };
    if by_text {
        return true;
    }
    let same_text = !text_is_before(a.1.as_str(), b.1.as_str()) && !text_is_before(
        b.1.as_str(),
        a.1.as_str(),
    );
    proof {
        lemma_text_before_total(a.1@, b.1@);
        lemma_text_before_irreflexive(a.1@);
    }
    if !same_text {
        return false;
    }
    let newer = match (a.2, b.2) {
        (Some(x), Some(y)) => x > y,
        (Some(_), None) => true,
        _ => false,
    };
    if newer {
        return true;
    }
    let same_time = match (a.2, b.2) {
        (Some(x), Some(y)) => x == y,
        (None, None) => true,
        _ => false,
    };
    same_time && text_is_before(a.0.as_str(), b.0.as_str())
}

/// Whether `a` comes strictly before `b` in the latest-first order.
fn latest_is_before(a: &Entry, b: &Entry) -> (r: bool)
    ensures
        r == latest_before(entry_view(*a), entry_view(*b)),
{
    match (a.2, b.2) {
        (Some(x), Some(y)) => x > y,
        _ => text_is_before(b.0.as_str(), a.0.as_str()),
    }
}

/// Sorts the entries by the column order, keeping the input order of equal ones.
pub fn sort_by_column(entries: Vec<Entry>, ascending: bool) -> (r: Vec<Entry>)
    ensures
        r@.to_multiset() == entries@.to_multiset(),
        column_sorted(r@, ascending),
{
    let mut rest = entries;
    let mut out: Vec<Entry> = Vec::new();
    while rest.len() > 0
        invariant
            out@.to_multiset().add(rest@.to_multiset()) == entries@.to_multiset(),
            column_sorted(out@, ascending),
        decreases rest@.len(),
    {
        let ghost before_rest = rest@;
        let x = rest.remove(0);
        proof {
            assert(before_rest.remove(0) == rest@);
            assert(before_rest.to_multiset() == rest@.to_multiset().insert(x)) by {
                vstd::seq_lib::to_multiset_remove(before_rest, 0);
            }
        }
        let mut p: usize = 0;
        while p < out.len() && !column_is_before(&x, &out[p], ascending)
            invariant
                0 <= p <= out@.len(),
                forall|k: int|
                    0 <= k < p ==> !column_before(
                        entry_view(x),
                        #[trigger] entry_view(out@[k]),
                        ascending,
                    ),
            decreases out@.len() - p,
        {
            p = p + 1;
        }
        let ghost old_out = out@;
        out.insert(p, x);
        proof {
            vstd::seq_lib::to_multiset_insert(old_out, p as int, x);
            assert(out@.to_multiset() == old_out.to_multiset().insert(x));
            assert(out@.to_multiset().add(rest@.to_multiset()) =~= old_out.to_multiset().add(
                before_rest.to_multiset(),
            ));
            assert forall|i: int, j: int| 0 <= i < j < out@.len() implies !column_before(
                #[trigger] entry_view(out@[j]),
                #[trigger] entry_view(out@[i]),
                ascending,
            ) by {
                if j < p {
                    assert(out@[i] == old_out[i] && out@[j] == old_out[j]);
                } else if j == p {
                    assert(out@[i] == old_out[i]);
                    assert(!column_before(entry_view(x), entry_view(old_out[i]), ascending));
                    assert(out@[j] == x);
                } else if i == p {
                    assert(out@[j] == old_out[j - 1]);
                    assert(column_before(entry_view(x), entry_view(old_out[p as int]), ascending));
                    if column_before(entry_view(old_out[j - 1]), entry_view(x), ascending) {
                        lemma_column_before_transitive(
                            entry_view(old_out[j - 1]),
                            entry_view(x),
                            entry_view(old_out[p as int]),
                            ascending,
                        );
                        if j - 1 > p {
                            assert(!column_before(
                                entry_view(old_out[j - 1]),
                                entry_view(old_out[p as int]),
                                ascending,
                            ));
                        } else {
                            lemma_column_before_asymmetric(
                                entry_view(old_out[j - 1]),
                                entry_view(old_out[j - 1]),
                                ascending,
                            );
                        }
                    }
                } else if i < p {
                    assert(out@[i] == old_out[i] && out@[j] == old_out[j - 1]);
                } else {
                    assert(out@[i] == old_out[i - 1] && out@[j] == old_out[j - 1]);
                }
            }
        }
    }
    proof {
        assert(rest@.to_multiset() =~= Multiset::empty());
        assert(out@.to_multiset().add(rest@.to_multiset()) =~= out@.to_multiset());
    }
    out
}

/// Sorts the entries latest first: each item is placed after those it does
/// not come before, so every item is in that order with the next one.
pub fn sort_latest_first(entries: Vec<Entry>) -> (r: Vec<Entry>)
    ensures
        r@.to_multiset() == entries@.to_multiset(),
        latest_sorted(r@),
{
    let mut rest = entries;
    let mut out: Vec<Entry> = Vec::new();
    while rest.len() > 0
        invariant
            out@.to_multiset().add(rest@.to_multiset()) == entries@.to_multiset(),
            latest_sorted(out@),
        decreases rest@.len(),
    {
        let ghost before_rest = rest@;
        let x = rest.remove(0);
        proof {
            assert(before_rest.remove(0) == rest@);
            assert(before_rest.to_multiset() == rest@.to_multiset().insert(x)) by {
                vstd::seq_lib::to_multiset_remove(before_rest, 0);
            }
        }
        let mut p: usize = 0;
        while p < out.len() && !latest_is_before(&x, &out[p])
            invariant
                0 <= p <= out@.len(),
                p > 0 ==> !latest_before(entry_view(x), entry_view(out@[p - 1])),
            decreases out@.len() - p,
        {
            p = p + 1;
        }
        let ghost old_out = out@;
        out.insert(p, x);
        proof {
            vstd::seq_lib::to_multiset_insert(old_out, p as int, x);
            assert(out@.to_multiset().add(rest@.to_multiset()) =~= old_out.to_multiset().add(
                before_rest.to_multiset(),
            ));
            assert forall|i: int| 0 <= i < out@.len() - 1 implies !latest_before(
                entry_view(#[trigger] out@[i + 1]),
                entry_view(out@[i]),
            ) by {
                if i + 1 < p {
                    assert(out@[i] == old_out[i] && out@[i + 1] == old_out[i + 1]);
                    assert(!latest_before(entry_view(old_out[i + 1]), entry_view(old_out[i])));
                } else if i + 1 == p {
                    assert(out@[i] == old_out[i]);
                    assert(out@[i + 1] == x);
                } else if i == p {
                    assert(out@[i + 1] == old_out[i]);
                    assert(latest_before(entry_view(x), entry_view(old_out[i])));
                    lemma_text_before_asymmetric(x.0@, old_out[i].0@);
                } else {
                    assert(out@[i] == old_out[i - 1] && out@[i + 1] == old_out[i]);
                    let k = i - 1;
                    assert(!latest_before(entry_view(old_out[k + 1]), entry_view(old_out[k])));
                }
            }
        }
    }
    proof {
        assert(rest@.to_multiset() =~= Multiset::empty());
        assert(out@.to_multiset().add(rest@.to_multiset()) =~= out@.to_multiset());
    }
    out
}

/// The order a list shows its entries in: sorted by the column when one is
/// chosen (ascending only when its status says so); latest first when none
/// is and that option is offered; otherwise as given.
pub open spec fn arranged(s: Seq<Entry>, given: Seq<Entry>, sort: Option<SortColumn>, latest_first: bool) -> bool {
    &&& s.to_multiset() == given.to_multiset()
    &&& match sort {
        Some(c) => column_sorted(s, c.status == SortStatus::Ascending),
        None => if latest_first {
            latest_sorted(s)
        } else {
            s == given
        },
    }
}

/// The keys of the entries in the order the list shows them.
pub fn sort_keys(entries: Vec<Entry>, sort: Option<SortColumn>, visible: &[SortListKind]) -> (r: Vec<String>)
    ensures
        exists|s: Seq<Entry>|
            #[trigger] arranged(s, entries@, sort, offered(visible@, SortListKind::LatestFirst))
                && r@ == s.map_values(|e: Entry| e.0),
{
    let ghost given = entries@;
    let latest_first = is_offered(visible, SortListKind::LatestFirst);
    let sorted = match sort {
        Some(c) => {
            let ascending = match c.status {
                SortStatus::Ascending => true,
                _ => false,
            };
            sort_by_column(entries, ascending)
        },
        None => if latest_first {
            sort_latest_first(entries)
        } else {
            entries
        },
    };
    let mut keys: Vec<String> = Vec::new();
    let mut i: usize = 0;
    while i < sorted.len()
        invariant
            0 <= i <= sorted@.len(),
            keys@ == sorted@.take(i as int).map_values(|e: Entry| e.0),
        decreases sorted@.len() - i,
    {
        let k = sorted[i].0.clone();
        keys.push(k);
        proof {
            assert(sorted@.take(i + 1) =~= sorted@.take(i as int).push(sorted@[i as int]));
        }
        i = i + 1;
    }
    proof {
        assert(sorted@.take(sorted@.len() as int) =~= sorted@);
        assert(arranged(sorted@, given, sort, latest_first));
    }
    keys
}

} // verus!
