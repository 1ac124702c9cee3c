//! Sorting texts by a numeric key and keeping one copy of each text.
use vstd::prelude::*;

verus! {

/// The texts of keyed pairs.
pub open spec fn texts(v: Seq<(u64, String)>) -> Seq<Seq<char>> {
    v.map_values(|p: (u64, String)| p.1@)
}

/// The views of a list of strings.
pub open spec fn string_views(v: Seq<String>) -> Seq<Seq<char>> {
    v.map_values(|s: String| s@)
}

/// Sorted by key.
pub open spec fn keys_sorted(v: Seq<(u64, String)>) -> bool {
    forall|i: int, j: int| 0 <= i < j < v.len() ==> v[i].0 <= v[j].0
}

/// No text occurs twice.
pub open spec fn no_repeats(v: Seq<Seq<char>>) -> bool {
    forall|i: int, j: int| 0 <= i < j < v.len() ==> v[i] != v[j]
}

/// Whether `t` is the text of one of the pairs.
fn holds_text(v: &Vec<(u64, String)>, t: &String) -> (b: bool)
    ensures
        b == texts(v@).contains(t@),
{
    let mut j: usize = 0;
    while j < v.len()
        invariant
            0 <= j <= v@.len(),
            forall|q: int| 0 <= q < j ==> texts(v@)[q] != t@,
        decreases v@.len() - j,
    {
        if v[j].1 == *t {
            assert(texts(v@)[j as int] == t@);
            return true;
        }
        j = j + 1;
    }
    false
}

/// The same texts occur in both lists (each at least once).
pub open spec fn same_members(a: Seq<Seq<char>>, b: Seq<Seq<char>>) -> bool {
    forall|x: Seq<char>| a.contains(x) <==> b.contains(x)
}

/// Every pair's key is the one that `key_of` gives its text.
pub open spec fn keyed_by(v: Seq<(u64, String)>, key_of: spec_fn(Seq<char>) -> u64) -> bool {
    forall|i: int| 0 <= i < v.len() ==> #[trigger] v[i].0 == key_of(v[i].1@)
}

/// Sorts the pairs by key (pairs with equal keys keep their order) and keeps
/// only the first pair of each text.
pub fn sort_dedup_by_key(items: Vec<(u64, String)>, Ghost(key_of): Ghost<spec_fn(Seq<char>) -> u64>) -> (r: Vec<(u64, String)>)
    requires
        keyed_by(items@, key_of),
    ensures
        keyed_by(r@, key_of),
        keys_sorted(r@),
        no_repeats(texts(r@)),
        same_members(texts(r@), texts(items@)),
{
    let n = items.len();
    let mut out: Vec<(u64, String)> = Vec::new();
    let mut i: usize = 0;
    while i < n
        invariant
            0 <= i <= n,
            n == items@.len(),
            keyed_by(items@, key_of),
            keyed_by(out@, key_of),
            keys_sorted(out@),
            same_members(texts(out@), texts(items@.take(i as int))),
        decreases n - i,
    {
        let key = items[i].0;
        let text = items[i].1.clone();
        let mut p: usize = 0;
        while p < out.len() && out[p].0 <= key
            invariant
                0 <= p <= out@.len(),
                forall|k: int| 0 <= k < p ==> #[trigger] out@[k].0 <= key,
            decreases out@.len() - p,
        {
            p = p + 1;
        }
        let ghost old_out = out@;
        out.insert(p, (key, text));
        proof {
            let e = items@[i as int].1@;
            assert(out@ == old_out.insert(p as int, (key, out@[p as int].1)));
            assert(texts(out@) =~= texts(old_out).insert(p as int, e));
            assert(texts(items@.take(i + 1)) =~= texts(items@.take(i as int)).push(e));
            assert forall|x: Seq<char>|
                texts(out@).contains(x) <==> texts(items@.take(i + 1)).contains(x) by {
                let to = texts(old_out);
                let tn = texts(out@);
                let ti = texts(items@.take(i as int));
                if tn.contains(x) {
                    let k = choose|k: int| 0 <= k < tn.len() && tn[k] == x;
                    if k == p {
                        assert(texts(items@.take(i + 1))[i as int] == x);
                    } else if k < p {
                        assert(to[k] == x);
                        assert(to.contains(x));
                        let j = choose|j: int| 0 <= j < ti.len() && ti[j] == x;
                        assert(texts(items@.take(i + 1))[j] == x);
                    } else {
                        assert(to[k - 1] == x);
                        assert(to.contains(x));
                        let j = choose|j: int| 0 <= j < ti.len() && ti[j] == x;
                        assert(texts(items@.take(i + 1))[j] == x);
                    }
                }
                if texts(items@.take(i + 1)).contains(x) {
                    let tt = texts(items@.take(i + 1));
                    let j = choose|j: int| 0 <= j < tt.len() && tt[j] == x;
                    if j == i {
                        assert(tn[p as int] == x);
                    } else {
                        assert(ti[j] == x);
                        assert(ti.contains(x));
                        let k = choose|k: int| 0 <= k < to.len() && to[k] == x;
                        if k < p {
                            assert(tn[k] == x);
                        } else {
                            assert(tn[k + 1] == x);
                        }
                    }
                }
            }
            assert forall|a: int, b: int| 0 <= a < b < out@.len() implies out@[a].0
                <= out@[b].0 by {
                if b < p {
                } else if b == p {
                    assert(old_out[a].0 <= key);
                } else if a < p {
                    assert(old_out[a].0 <= key);
                    assert(old_out[p as int].0 > key);
                } else if a == p {
                    assert(old_out[p as int].0 > key);
                } else {
                }
            }
            assert forall|k: int| 0 <= k < out@.len() implies #[trigger] out@[k].0 == key_of(
                out@[k].1@,
            ) by {
                if k < p {
                    assert(out@[k] == old_out[k]);
                } else if k == p {
                } else {
                    assert(out@[k] == old_out[k - 1]);
                }
            }
        }
        i = i + 1;
    }
    assert(items@.take(n as int) =~= items@);
    let m = out.len();
    let mut r: Vec<(u64, String)> = Vec::new();
    let mut k: usize = 0;
    while k < m
        invariant
            0 <= k <= m,
            m == out@.len(),
            keyed_by(out@, key_of),
            keys_sorted(out@),
            keyed_by(r@, key_of),
            keys_sorted(r@),
            no_repeats(texts(r@)),
            same_members(texts(r@), texts(out@.take(k as int))),
            r@.len() > 0 ==> k > 0 && r@.last().0 <= out@[k - 1].0,
            k > 0 ==> r@.len() > 0,
        decreases m - k,
    {
        let ghost old_r = r@;
        let e_text = out[k].1.clone();
        let e_key = out[k].0;
        let repeat = holds_text(&r, &e_text);
        proof {
            assert(texts(out@.take(k + 1)) =~= texts(out@.take(k as int)).push(out@[k as int].1@));
        }
        if !repeat {
            r.push((e_key, e_text));
            proof {
                assert(texts(r@) =~= texts(old_r).push(out@[k as int].1@));
                assert forall|a: int, b: int| 0 <= a < b < r@.len() implies r@[a].0
                    <= r@[b].0 by {
                    if b == r@.len() - 1 && a < b {
                        assert(old_r[a].0 <= old_r.last().0);
                        assert(old_r.last().0 <= out@[k - 1].0);
                        assert(out@[k - 1].0 <= out@[k as int].0);
                    }
                }
                assert forall|a: int, b: int| 0 <= a < b < texts(r@).len() implies texts(r@)[a]
                    != texts(r@)[b] by {
                    if b == texts(r@).len() - 1 {
                        assert(texts(old_r)[a] == texts(r@)[a]);
                        assert(!texts(old_r).contains(e_text@));
                    } else {
                        assert(texts(old_r)[a] == texts(r@)[a]);
                        assert(texts(old_r)[b] == texts(r@)[b]);
                    }
                }
                assert forall|x: Seq<char>|
                    texts(r@).contains(x) <==> texts(out@.take(k + 1)).contains(x) by {
                    let tr = texts(r@);
                    let to = texts(old_r);
                    let tk = texts(out@.take(k as int));
                    let tk1 = texts(out@.take(k + 1));
                    if tr.contains(x) {
                        let q = choose|q: int| 0 <= q < tr.len() && tr[q] == x;
                        if q == tr.len() - 1 {
                            assert(tk1[k as int] == x);
                        } else {
                            assert(to[q] == x);
                            assert(to.contains(x));
                            let j = choose|j: int| 0 <= j < tk.len() && tk[j] == x;
                            assert(tk1[j] == x);
                        }
                    }
                    if tk1.contains(x) {
                        let j = choose|j: int| 0 <= j < tk1.len() && tk1[j] == x;
                        if j == k {
                            assert(tr[tr.len() - 1] == x);
                        } else {
                            assert(tk[j] == x);
                            assert(tk.contains(x));
                            let q = choose|q: int| 0 <= q < to.len() && to[q] == x;
                            assert(tr[q] == x);
                        }
                    }
                }
            }
        } else {
            proof {
                assert forall|x: Seq<char>|
                    texts(r@).contains(x) <==> texts(out@.take(k + 1)).contains(x) by {
                    let tr = texts(r@);
                    let tk = texts(out@.take(k as int));
                    let tk1 = texts(out@.take(k + 1));
                    if tr.contains(x) {
                        let j = choose|j: int| 0 <= j < tk.len() && tk[j] == x;
                        assert(tk1[j] == x);
                    }
                    if tk1.contains(x) {
                        let j = choose|j: int| 0 <= j < tk1.len() && tk1[j] == x;
                        if j == k {
                            assert(x == e_text@);
                        } else {
                            assert(tk[j] == x);
                            assert(tk.contains(x));
                        }
                    }
                }
                if k > 0 && r@.len() > 0 {
                    assert(out@[k - 1].0 <= out@[k as int].0);
                }
            }
        }
        k = k + 1;
    }
    assert(out@.take(m as int) =~= out@);
    r
}

/// The texts of the pairs, in order.
pub fn texts_of(v: Vec<(u64, String)>) -> (r: Vec<String>)
    ensures
        string_views(r@) == texts(v@),
{
    let n = v.len();
    let mut r: Vec<String> = Vec::new();
    let mut i: usize = 0;
    while i < n
        invariant
            0 <= i <= n,
            n == v@.len(),
            string_views(r@) == texts(v@.take(i as int)),
        decreases n - i,
    {
        let ghost prev = r@;
        r.push(v[i].1.clone());
        assert(texts(v@.take(i + 1)) =~= texts(v@.take(i as int)).push(v@[i as int].1@));
        assert(string_views(r@) =~= string_views(prev).push(v@[i as int].1@));
        i = i + 1;
    }
    assert(v@.take(n as int) =~= v@);
    r
}

/// Whether `x` is among the strings.
pub fn holds(v: &Vec<String>, x: &String) -> (b: bool)
    ensures
        b == string_views(v@).contains(x@),
{
    let mut i: usize = 0;
    while i < v.len()
        invariant
            0 <= i <= v@.len(),
            forall|k: int| 0 <= k < i ==> #[trigger] string_views(v@)[k] != x@,
        decreases v@.len() - i,
    {
        if v[i] == *x {
            assert(string_views(v@)[i as int] == x@);
            return true;
        }
        i = i + 1;
    }
    false
}

} // verus!
