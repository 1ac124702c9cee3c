//! Which items of a list are checked: the keys that came and went when the
//! list changed, "check all" on a page, and what stays checked after a change.
use vstd::prelude::*;

use crate::items::distinct;
use crate::sorting::{holds, string_views};

verus! {

/// The texts of a list of strings, as a set.
pub open spec fn text_set(v: Seq<String>) -> Set<Seq<char>> {
    Set::new(|x: Seq<char>| string_views(v).contains(x))
}

/// The keys shown at positions `start..=end` (counted from 1) of the list.
pub open spec fn page_keys(keys: Seq<Seq<char>>, start: int, end: int) -> Set<Seq<char>> {
    Set::new(
        |k: Seq<char>|
            exists|i: int| start <= i <= end && 1 <= i <= keys.len() && #[trigger] keys[i - 1] == k,
    )
}

proof fn lemma_text_set_push(v: Seq<String>, s: String)
    ensures
        text_set(v.push(s)) == text_set(v).insert(s@),
        string_views(v.push(s)) == string_views(v).push(s@),
{
    let a = string_views(v);
    let b = string_views(v.push(s));
    assert(b =~= a.push(s@));
    assert forall|x: Seq<char>| b.contains(x) <==> (a.contains(x) || x == s@) by {
        if b.contains(x) {
            let k = choose|k: int| 0 <= k < b.len() && b[k] == x;
            if k < a.len() {
                assert(a[k] == x);
            }
        }
        if a.contains(x) {
            let k = choose|k: int| 0 <= k < a.len() && a[k] == x;
            assert(b[k] == x);
        }
        if x == s@ {
            assert(b[a.len() as int] == x);
        }
    }
    assert(text_set(v.push(s)) =~= text_set(v).insert(s@));
}

proof fn lemma_text_set_remove(v: Seq<String>, i: int)
    requires
        0 <= i < v.len(),
        distinct(string_views(v)),
    ensures
        text_set(v.remove(i)) == text_set(v).remove(v[i]@),
        distinct(string_views(v.remove(i))),
{
    let a = string_views(v);
    let b = string_views(v.remove(i));
    assert(b =~= a.remove(i));
    assert forall|x: Seq<char>| b.contains(x) <==> (a.contains(x) && x != v[i]@) by {
        assert(a[i] == v[i]@);
        if b.contains(x) {
            let k = choose|k: int| 0 <= k < b.len() && b[k] == x;
            if k < i {
                assert(a[k] == x);
                assert(a[k] != a[i]);
            } else {
                assert(a[k + 1] == x);
                assert(a[i] != a[k + 1]);
            }
        }
        if a.contains(x) && x != v[i]@ {
            let k = choose|k: int| 0 <= k < a.len() && a[k] == x;
            if k < i {
                assert(b[k] == x);
            } else {
                assert(k != i);
                assert(b[k - 1] == x);
            }
        }
    }
    assert(text_set(v.remove(i)) =~= text_set(v).remove(v[i]@));
    assert forall|p: int, q: int| 0 <= p < q < b.len() implies b[p] != b[q] by {
        if q < i {
        } else if p < i {
            assert(b[q] == a[q + 1]);
        } else {
            assert(b[p] == a[p + 1] && b[q] == a[q + 1]);
        }
    }
}

proof fn lemma_page_keys_step(keys: Seq<Seq<char>>, start: int, index: int)
    requires
        start >= 1,
        index >= start,
    ensures
        page_keys(keys, start, index) == (if index <= keys.len() {
            page_keys(keys, start, index - 1).insert(keys[index - 1])
        } else {
            page_keys(keys, start, index - 1)
        }),
{
    let big = page_keys(keys, start, index);
    let small = page_keys(keys, start, index - 1);
    assert forall|k: Seq<char>| big.contains(k) <==> (small.contains(k) || (index <= keys.len()
        && k == keys[index - 1])) by {
        if big.contains(k) {
            let i = choose|i: int| start <= i <= index && 1 <= i <= keys.len() && #[trigger] keys[i - 1] == k;
            if i < index {
                assert(small.contains(k));
            }
        }
        if small.contains(k) {
            let i = choose|i: int| start <= i <= index - 1 && 1 <= i <= keys.len() && #[trigger] keys[i - 1] == k;
            assert(start <= i <= index);
        }
        if index <= keys.len() && k == keys[index - 1] {
            assert(start <= index <= index && 1 <= index <= keys.len() && keys[index - 1] == k);
        }
    }
    if index <= keys.len() {
        assert(big =~= small.insert(keys[index - 1]));
    } else {
        assert(big =~= small);
    }
}

proof fn lemma_page_keys_empty(keys: Seq<Seq<char>>, start: int)
    ensures
        page_keys(keys, start, start - 1) == Set::<Seq<char>>::empty(),
{
    assert(page_keys(keys, start, start - 1) =~= Set::<Seq<char>>::empty());
}

/// The position of `x` among the strings, if it is there.
fn position_of(v: &Vec<String>, x: &String) -> (r: Option<usize>)
    ensures
        match r {
            Some(i) => i < v@.len() && v@[i as int]@ == x@,
            None => !string_views(v@).contains(x@),
        },
{
    let mut i: usize = 0;
    while i < v.len()
        invariant
            0 <= i <= v@.len(),
            forall|k: int| 0 <= k < i ==> #[trigger] string_views(v@)[k] != x@,
        decreases v@.len() - i,
    {
        if v[i] == *x {
            return Some(i);
        }
        i = i + 1;
    }
    None
}

/// The keys of `current` that `previous` lacks, each once.
pub fn keys_not_in(current: &Vec<String>, previous: &Vec<String>) -> (r: Vec<String>)
    ensures
        text_set(r@) == text_set(current@).difference(text_set(previous@)),
        distinct(string_views(r@)),
{
    let mut r: Vec<String> = Vec::new();
    let mut i: usize = 0;
    while i < current.len()
        invariant
            0 <= i <= current@.len(),
            text_set(r@) == text_set(current@.take(i as int)).difference(text_set(previous@)),
            distinct(string_views(r@)),
        decreases current@.len() - i,
    {
        proof {
            assert(current@.take(i + 1) =~= current@.take(i as int).push(current@[i as int]));
            lemma_text_set_push(current@.take(i as int), current@[i as int]);
        }
        if !holds(previous, &current[i]) && !holds(&r, &current[i]) {
            let ghost before = r@;
            r.push(current[i].clone());
            proof {
                lemma_text_set_push(before, current@[i as int]);
                assert(text_set(r@) =~= text_set(current@.take(i + 1)).difference(
                    text_set(previous@),
                ));
                let a = string_views(r@);
                assert forall|p: int, q: int| 0 <= p < q < a.len() implies a[p] != a[q] by {
                    if q == a.len() - 1 {
                        assert(string_views(before)[p] == a[p]);
                    }
                }
            }
        } else {
            proof {
                assert(text_set(r@) =~= text_set(current@.take(i + 1)).difference(
                    text_set(previous@),
                ));
            }
        }
        i = i + 1;
    }
    proof {
        assert(current@.take(current@.len() as int) =~= current@);
    }
    r
}

/// The keys that came and went when a list changed from `previous` to
/// `current`: (those only in `current`, those only in `previous`).
pub fn key_changes(previous: &Vec<String>, current: &Vec<String>) -> (r: (Vec<String>, Vec<String>))
    ensures
        text_set(r.0@) == text_set(current@).difference(text_set(previous@)),
        text_set(r.1@) == text_set(previous@).difference(text_set(current@)),
        distinct(string_views(r.0@)),
        distinct(string_views(r.1@)),
{
    (keys_not_in(current, previous), keys_not_in(previous, current))
}

/// "Check all" on a page: every key shown at positions `start..=end` becomes
/// checked (or, with `check` false, unchecked); other keys keep their state.
pub fn check_all(checked: &mut Vec<String>, sorted_keys: &Vec<String>, start: usize, end: usize, check: bool)
    requires
        start >= 1,
        end < usize::MAX,
        distinct(string_views(old(checked)@)),
    ensures
        distinct(string_views(final(checked)@)),
        text_set(final(checked)@) == (if check {
            text_set(old(checked)@).union(
                page_keys(string_views(sorted_keys@), start as int, end as int),
            )
        } else {
            text_set(old(checked)@).difference(
                page_keys(string_views(sorted_keys@), start as int, end as int),
            )
        }),
{
    let ghost keys = string_views(sorted_keys@);
    let ghost initial = text_set(checked@);
    proof {
        lemma_page_keys_empty(keys, start as int);
        assert(initial.union(Set::<Seq<char>>::empty()) =~= initial);
        assert(initial.difference(Set::<Seq<char>>::empty()) =~= initial);
    }
    let mut index: usize = start;
    while index <= end
        invariant
            start <= index,
            start >= 1,
            end < usize::MAX,
            index <= end + 1 || index == start,
            keys == string_views(sorted_keys@),
            distinct(string_views(checked@)),
            text_set(checked@) == (if check {
                initial.union(page_keys(keys, start as int, index - 1))
            } else {
                initial.difference(page_keys(keys, start as int, index - 1))
            }),
        decreases end + 1 - index,
    {
        proof {
            lemma_page_keys_step(keys, start as int, index as int);
        }
        if index - 1 < sorted_keys.len() {
            let key = &sorted_keys[index - 1];
            assert(keys[index - 1] == key@);
            match position_of(checked, key) {
                Some(pos) => {
                    assert(string_views(checked@)[pos as int] == key@);
                    if !check {
                        let ghost before = checked@;
                        checked.remove(pos);
                        proof {
                            lemma_text_set_remove(before, pos as int);
                        }
                    }
                },
                None => {
                    if check {
                        let ghost before = checked@;
                        checked.push(key.clone());
                        proof {
                            lemma_text_set_push(before, *key);
                            let a = string_views(checked@);
                            assert forall|p: int, q: int| 0 <= p < q < a.len() implies a[p]
                                != a[q] by {
                                if q == a.len() - 1 {
                                    assert(string_views(before)[p] == a[p]);
                                }
                            }
                        }
                    }
                },
            }
            proof {
                if check {
                    assert(text_set(checked@) =~= initial.union(
                        page_keys(keys, start as int, index as int),
                    ));
                } else {
                    assert(text_set(checked@) =~= initial.difference(
                        page_keys(keys, start as int, index as int),
                    ));
                }
            }
        }
        index = index + 1;
    }
}

/// What stays checked after the list changed: the keys shown on the page
/// that were checked before and did not just come in.
pub fn update_checked(
    previous: &Vec<String>,
    sorted_keys: &Vec<String>,
    start: usize,
    end: usize,
    added: &Vec<String>,
) -> (r: Vec<String>)
    requires
        start >= 1,
        end < usize::MAX,
    ensures
        distinct(string_views(r@)),
        text_set(r@) == page_keys(string_views(sorted_keys@), start as int, end as int).intersect(
            text_set(previous@),
        ).difference(text_set(added@)),
{
    let ghost keys = string_views(sorted_keys@);
    let mut r: Vec<String> = Vec::new();
    proof {
        lemma_page_keys_empty(keys, start as int);
        assert(text_set(r@) =~= Set::<Seq<char>>::empty());
        assert(Set::<Seq<char>>::empty().intersect(text_set(previous@)).difference(
            text_set(added@),
        ) =~= Set::<Seq<char>>::empty());
    }
    let mut index: usize = start;
    while index <= end
        invariant
            start <= index,
            start >= 1,
            end < usize::MAX,
            index <= end + 1 || index == start,
            keys == string_views(sorted_keys@),
            distinct(string_views(r@)),
            text_set(r@) == page_keys(keys, start as int, index - 1).intersect(
                text_set(previous@),
            ).difference(text_set(added@)),
        decreases end + 1 - index,
    {
        proof {
            lemma_page_keys_step(keys, start as int, index as int);
        }
        if index - 1 < sorted_keys.len() {
            let key = &sorted_keys[index - 1];
            assert(keys[index - 1] == key@);
            if holds(previous, key) && !holds(added, key) && !holds(&r, key) {
                let ghost before = r@;
                r.push(key.clone());
                proof {
                    lemma_text_set_push(before, *key);
                    let a = string_views(r@);
                    assert forall|p: int, q: int| 0 <= p < q < a.len() implies a[p] != a[q] by {
                        if q == a.len() - 1 {
                            assert(string_views(before)[p] == a[p]);
                        }
                    }
                }
            }
            proof {
                assert(text_set(r@) =~= page_keys(keys, start as int, index as int).intersect(
                    text_set(previous@),
                ).difference(text_set(added@)));
            }
        }
        index = index + 1;
    }
    r
}

} // verus!
