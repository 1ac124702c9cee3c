//! What the controls of a list do: the sort a click on a column header or a
//! sort option chooses, checking single items and whole pages, and opening
//! an item's second layer.
use vstd::prelude::*;

use crate::checkbox::CheckStatus;
use crate::checked::{page_keys, text_set};
use crate::items::distinct;
use crate::list::{DataType, SortColumn, SortListKind, SortStatus};
use crate::sorting::{holds, string_views};

verus! {

/// The sort after a click on the header of column `index`: a column clicked
/// again turns from ascending to descending and otherwise to ascending; a
/// new column starts ascending.
pub open spec fn sort_after_click(current: Option<SortColumn>, index: usize) -> SortColumn {
    match current {
        Some(s) => if s.index == index && s.status == SortStatus::Ascending {
            SortColumn { index, status: SortStatus::Descending }
        } else {
            SortColumn { index, status: SortStatus::Ascending }
        },
        None => SortColumn { index, status: SortStatus::Ascending },
    }
}

/// The sort after a click on the header of column `index`.
pub fn click_sort(current: Option<SortColumn>, index: usize) -> (s: SortColumn)
    ensures
        s == sort_after_click(current, index),
{
    match current {
        Some(s) => {
            let status = if index == s.index {
                match s.status {
                    SortStatus::Ascending => SortStatus::Descending,
                    SortStatus::Descending | SortStatus::Unsorted => SortStatus::Ascending,
                }
            } else {
                SortStatus::Ascending
            };
            SortColumn { index, status }
        },
        None => SortColumn { index, status: SortStatus::Ascending },
    }
}

/// Two clicks on the same header bring the sort back: ascending, then
/// descending, then ascending again.
pub proof fn law_two_clicks_restore_the_sort(current: Option<SortColumn>, index: usize)
    ensures
        sort_after_click(Some(sort_after_click(current, index)), index).status
            == SortStatus::Ascending ==> sort_after_click(current, index).status
            == SortStatus::Descending,
        sort_after_click(Some(sort_after_click(Some(sort_after_click(current, index)), index)), index)
            == sort_after_click(current, index),
{
}

/// The sort a sort option chooses: latest first is no column, ascending and
/// descending sort the first column; `None` when no option is chosen (the
/// sort stays as it is).
pub fn sort_of_list_kind(kind: Option<SortListKind>) -> (r: Option<Option<SortColumn>>)
    ensures
        r == match kind {
            Some(SortListKind::LatestFirst) => Some(None),
            Some(SortListKind::Ascending) => Some(
                Some(SortColumn { index: 0, status: SortStatus::Ascending }),
            ),
            Some(SortListKind::Descending) => Some(
                Some(SortColumn { index: 0, status: SortStatus::Descending }),
            ),
            None => None,
        },
{
    match kind {
        Some(SortListKind::LatestFirst) => Some(None),
        Some(SortListKind::Ascending) => Some(Some(SortColumn { index: 0, status: SortStatus::Ascending })),
        Some(SortListKind::Descending) => Some(Some(SortColumn { index: 0, status: SortStatus::Descending })),
        None => None,
    }
}

/// The sort the second layer of a list starts with: customers by their
/// first column, ascending; nothing otherwise.
pub fn default_second_sort(data_type: Option<DataType>) -> (r: Option<SortColumn>)
    ensures
        r == match data_type {
            Some(DataType::Customer) => Some(SortColumn { index: 0, status: SortStatus::Ascending }),
            _ => None,
        },
{
    match data_type {
        Some(DataType::Customer) => Some(SortColumn { index: 0, status: SortStatus::Ascending }),
        _ => None,
    }
}

/// Checks the item `key` when it is unchecked and unchecks it otherwise.
pub fn toggle_checked(checked: &mut Vec<String>, key: &String)
    requires
        distinct(string_views(old(checked)@)),
    ensures
        distinct(string_views(final(checked)@)),
        text_set(final(checked)@) == (if text_set(old(checked)@).contains(key@) {
            text_set(old(checked)@).remove(key@)
        } else {
            text_set(old(checked)@).insert(key@)
        }),
{
    let ghost before = checked@;
    let mut i: usize = 0;
    while i < checked.len()
        invariant
            0 <= i <= checked@.len(),
            checked@ == before,
            before == old(checked)@,
            distinct(string_views(before)),
            forall|k: int| 0 <= k < i ==> #[trigger] string_views(checked@)[k] != key@,
        decreases checked@.len() - i,
    {
        if checked[i] == *key {
            let ghost at = i as int;
            checked.remove(i);
            proof {
                let a = string_views(before);
                let b = string_views(checked@);
                assert(b =~= a.remove(at));
                assert(a[at] == key@);
                assert(text_set(before).contains(key@));
                assert forall|x: Seq<char>| b.contains(x) <==> (a.contains(x) && x != key@) by {
                    if b.contains(x) {
                        let k = choose|k: int| 0 <= k < b.len() && b[k] == x;
                        if k < at {
                            assert(a[k] == x && a[k] != a[at]);
                        } else {
                            assert(a[k + 1] == x && a[at] != a[k + 1]);
                        }
                    }
                    if a.contains(x) && x != key@ {
                        let k = choose|k: int| 0 <= k < a.len() && a[k] == x;
                        if k < at {
                            assert(b[k] == x);
                        } else {
                            assert(b[k - 1] == x);
                        }
                    }
                }
                assert(text_set(checked@) =~= text_set(before).remove(key@));
                assert forall|p: int, q: int| 0 <= p < q < b.len() implies b[p] != b[q] by {
                    if q < at {
                    } else if p < at {
                        assert(b[q] == a[q + 1]);
                    } else {
                        assert(b[p] == a[p + 1] && b[q] == a[q + 1]);
                    }
                }
            }
            return;
        }
        i = i + 1;
    }
    checked.push(key.clone());
    proof {
        let a = string_views(before);
        let b = string_views(checked@);
        assert(b =~= a.push(key@));
        assert(!text_set(before).contains(key@));
        assert forall|x: Seq<char>| b.contains(x) <==> (a.contains(x) || x == key@) by {
            if b.contains(x) {
                let k = choose|k: int| 0 <= k < b.len() && b[k] == x;
                if k < a.len() {
                    assert(a[k] == x);
                }
            }
            if a.contains(x) {
                let k = choose|k: int| 0 <= k < a.len() && a[k] == x;
                assert(b[k] == x);
            }
            if x == key@ {
                assert(b[a.len() as int] == x);
            }
        }
        assert(text_set(checked@) =~= text_set(before).insert(key@));
        assert forall|p: int, q: int| 0 <= p < q < b.len() implies b[p] != b[q] by {
            if q == b.len() - 1 {
                assert(a[p] == b[p]);
            }
        }
    }
}

/// Checking an item twice leaves the checked items as they were.
pub proof fn law_toggle_twice(s: Set<Seq<char>>, key: Seq<char>)
    ensures
        ({
            let once = if s.contains(key) {
                s.remove(key)
            } else {
                s.insert(key)
            };
            (if once.contains(key) {
                once.remove(key)
            } else {
                once.insert(key)
            }) == s
        }),
{
    if s.contains(key) {
        assert(s.remove(key).insert(key) =~= s);
    } else {
        assert(s.insert(key).remove(key) =~= s);
    }
}

/// What the "check all" box of a page does in each state: whether it checks
/// (or else unchecks) the page, and whether the checks of the other layer
/// are cleared. An unchecked page gets checked (and the other layer
/// cleared), a partly checked one gets checked, a checked one unchecked.
pub fn check_all_action(status: CheckStatus) -> (r: (bool, bool))
    ensures
        r == match status {
            CheckStatus::Unchecked => (true, true),
            CheckStatus::Indeterminate => (true, false),
            CheckStatus::Checked => (false, false),
        },
{
    match status {
        CheckStatus::Unchecked => (true, true),
        CheckStatus::Indeterminate => (true, false),
        CheckStatus::Checked => (false, false),
    }
}

/// The "check all" box of the opened second layers: its new state, and
/// whether the first layer's checks are cleared.
pub fn toggle_second_layer(status: CheckStatus) -> (r: (CheckStatus, bool))
    ensures
        r == match status {
            CheckStatus::Unchecked => (CheckStatus::Checked, true),
            CheckStatus::Indeterminate => (CheckStatus::Checked, false),
            CheckStatus::Checked => (CheckStatus::Unchecked, false),
        },
{
    match status {
        CheckStatus::Unchecked => (CheckStatus::Checked, true),
        CheckStatus::Indeterminate => (CheckStatus::Checked, false),
        CheckStatus::Checked => (CheckStatus::Unchecked, false),
    }
}

/// A click that opens or closes the second layer of the item `key`: an open
/// item closes (and no item is being edited); otherwise the items of the
/// page close and `key` opens (and is the item being edited). The result is
/// the list of items being edited.
pub fn click_expandable(
    expanded: &mut Vec<String>,
    sorted_keys: &Vec<String>,
    start: usize,
    end: usize,
    key: &String,
) -> (ids: Vec<String>)
    requires
        start >= 1,
        end < usize::MAX,
        distinct(string_views(old(expanded)@)),
    ensures
        distinct(string_views(final(expanded)@)),
        text_set(old(expanded)@).contains(key@) ==> text_set(final(expanded)@) == text_set(
            old(expanded)@,
        ).remove(key@) && ids@.len() == 0,
        !text_set(old(expanded)@).contains(key@) ==> text_set(final(expanded)@) == text_set(
            old(expanded)@,
        ).difference(page_keys(string_views(sorted_keys@), start as int, end as int)).insert(key@)
            && ids@.len() == 1 && ids@[0]@ == key@,
{
    if holds(expanded, key) {
        toggle_checked(expanded, key);
        Vec::new()
    } else {
        let ghost before = text_set(expanded@);
        crate::checked::check_all(expanded, sorted_keys, start, end, false);
        let ghost closed = text_set(expanded@);
        proof {
            assert(!closed.contains(key@));
        }
        toggle_checked(expanded, key);
        let mut ids: Vec<String> = Vec::new();
        ids.push(key.clone());
        ids
    }
}

} // verus!
