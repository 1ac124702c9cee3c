//! Lists of items: their columns, pages, check boxes and sort options.
use vstd::prelude::*;

use crate::checkbox::CheckStatus;
use crate::items::InputNic;
use crate::model::ViewString;
use crate::pages::Info;
use crate::sorting::{holds, string_views};

verus! {

#[derive(Clone, PartialEq)]
pub struct TextColumn {
    pub text: ViewString,
    pub display: Option<String>,
}

#[derive(Clone, PartialEq)]
pub struct DomainNameColumn {
    pub domain: ViewString,
    pub display: Option<String>,
}

#[derive(Clone, PartialEq)]
pub struct HostNetworkGroupColumn {
    pub host_network_group: Vec<String>,
}

#[derive(Clone, PartialEq)]
pub struct SelectSingleColumn {
    /// id, value
    pub selected: Option<(String, ViewString)>,
    pub display: Option<String>,
}

#[derive(Clone, PartialEq)]
pub struct SelectMultipleColumn {
    /// (id, value) pairs, each id once
    pub selected: Vec<(String, ViewString)>,
}

/// The ids of (id, value) pairs.
pub open spec fn pair_ids(v: Seq<(String, ViewString)>) -> Seq<Seq<char>> {
    v.map_values(|p: (String, ViewString)| p.0@)
}

impl SelectMultipleColumn {
    /// No id is selected twice.
    pub open spec fn well_keyed(self) -> bool {
        forall|i: int, j: int|
            0 <= i < j < self.selected@.len() ==> self.selected@[i].0@ != self.selected@[j].0@
    }

    /// A column with nothing selected.
    pub fn new() -> (c: Self)
        ensures
            c.well_keyed(),
            c.selected@.len() == 0,
    {
        SelectMultipleColumn { selected: Vec::new() }
    }

    /// Selects `id` with the value `value`, replacing the value of an id
    /// already selected (the order of the others stays).
    pub fn insert(&mut self, id: String, value: ViewString)
        requires
            old(self).well_keyed(),
        ensures
            final(self).well_keyed(),
            pair_ids(old(self).selected@).contains(id@) ==> final(self).selected@.len()
                == old(self).selected@.len(),
            !pair_ids(old(self).selected@).contains(id@) ==> final(self).selected@ == old(
                self,
            ).selected@.push((id, value)),
            forall|j: int|
                0 <= j < old(self).selected@.len() ==> #[trigger] final(self).selected@[j] == if old(
                    self,
                ).selected@[j].0@ == id@ {
                    (id, value)
                } else {
                    old(self).selected@[j]
                },
    {
        let mut k: usize = 0;
        while k < self.selected.len()
            invariant
                k <= self.selected@.len(),
                forall|q: int| 0 <= q < k ==> self.selected@[q].0@ != id@,
            ensures
                k <= self.selected@.len(),
                forall|q: int| 0 <= q < k ==> self.selected@[q].0@ != id@,
                k < self.selected@.len() ==> self.selected@[k as int].0@ == id@,
            decreases self.selected@.len() - k,
        {
            if self.selected[k].0 == id {
                break;
            }
            k = k + 1;
        }
        let ghost before = self.selected@;
        if k < self.selected.len() {
            assert(before[k as int].0@ == id@);
            assert(pair_ids(before)[k as int] == id@);
            let _ = self.selected.remove(k);
            self.selected.insert(k, (id, value));
            assert(self.selected@ =~= before.update(k as int, (id, value)));
            assert forall|j: int| 0 <= j < before.len() && j != k implies before[j].0@ != id@ by {
                if j < k {
                } else {
                    assert(before[j].0@ != before[k as int].0@);
                }
            }
        } else {
            self.selected.push((id, value));
            proof {
                assert forall|x: int| 0 <= x < pair_ids(before).len() implies pair_ids(before)[x] != id@ by {
                    assert(pair_ids(before)[x] == before[x].0@);
                }
            }
        }
    }
}

#[derive(Clone, PartialEq)]
pub struct TagColumn {
    /// the tags, each once
    pub tags: Vec<String>,
}

#[derive(Clone, PartialEq)]
pub struct Unsigned32Column {
    pub value: Option<u32>,
}

#[derive(Clone, PartialEq)]
pub struct Unsigned8Column {
    pub value: Option<u8>,
}

#[derive(Clone, PartialEq)]
pub struct NicColumn {
    pub nics: Vec<InputNic>,
}

#[derive(Clone, PartialEq)]
pub struct FileColumn {
    pub filename: String,
}

#[derive(Clone, PartialEq)]
pub struct VecSelectColumn {
    /// for each selection, its (id, value) pairs, each id once
    pub selected: Vec<Vec<(String, ViewString)>>,
}

#[derive(Clone, PartialEq)]
pub struct ModalDisplay {
    pub title: String,
    pub content: String,
}

/// How a list is laid out.
#[derive(Clone, Copy, PartialEq, Eq)]
pub enum Kind {
    Flat,
    LayeredFirst,
    LayeredSecond,
}

#[derive(Clone, Copy, PartialEq, Eq)]
pub enum DataType {
    Customer,
    Network,
}

/// What a list asks its parent to do.
#[derive(Clone, Copy, PartialEq, Eq, Hash)]
pub enum MessageType {
    Add,
    Edit,
    Delete,
    AddSecond,
    EditSecond,
    DeleteSecond,
    AddTag,
    EditTag,
    DeleteTag,
    InputError,
    FileLoadError,
}

/// The direction a column is sorted in.
#[derive(Clone, Copy, PartialEq, Eq)]
pub enum SortStatus {
    Ascending,
    Descending,
    Unsorted,
}

/// The column a list is sorted by.
#[derive(Clone, Copy, PartialEq, Eq)]
pub struct SortColumn {
    pub index: usize,
    pub status: SortStatus,
}

/// The sort options a user can pick for a whole list.
#[derive(Clone, Copy, Debug, PartialEq, Eq)]
pub enum SortListKind {
    LatestFirst,
    Ascending,
    Descending,
}

pub open spec fn least(a: int, b: int) -> int {
    if a <= b {
        a
    } else {
        b
    }
}

/// The positions (from 1) of the first and last item shown on the current page.
pub fn item_range(current: usize, num_per_page: usize, len: usize) -> (r: (usize, usize))
    requires
        current >= 1,
        current * num_per_page <= usize::MAX,
    ensures
        r.0 == (current - 1) * num_per_page + 1,
        r.1 == least(current * num_per_page, len as int),
{
    assert((current - 1) * num_per_page + 1 <= current * num_per_page + 1) by (nonlinear_arith)
        requires
            current >= 1,
    ;
    assert((current - 1) * num_per_page <= current * num_per_page) by (nonlinear_arith)
        requires
            current >= 1,
    ;
    let last = current * num_per_page;
    let before = (current - 1) * num_per_page;
    assert(before + 1 <= usize::MAX) by (nonlinear_arith)
        requires
            current >= 1,
            current * num_per_page <= usize::MAX,
            before == (current - 1) * num_per_page,
    ;
    (before + 1, if last < len { last } else { len })
}

/// The number of pages that `len` items fill, `num_per_page` to a page.
pub open spec fn page_count(len: int, num_per_page: int) -> int {
    if len == 0 {
        0
    } else {
        (len - 1) / num_per_page + 1
    }
}

/// The number of pages that `len` items fill.
pub fn page_total(len: usize, num_per_page: usize) -> (t: usize)
    requires
        num_per_page > 0,
    ensures
        t == page_count(len as int, num_per_page as int),
{
    if len == 0 {
        0
    } else {
        assert((len - 1) / (num_per_page as int) <= len - 1) by (nonlinear_arith)
            requires
                num_per_page > 0,
                len >= 1,
        ;
        (len - 1) / num_per_page + 1
    }
}

/// Every item is on exactly one page: the pages hold all items and the last
/// page is not empty.
pub proof fn law_pages_hold_items(len: int, num_per_page: int)
    requires
        len > 0,
        num_per_page > 0,
    ensures
        (page_count(len, num_per_page) - 1) * num_per_page < len,
        len <= page_count(len, num_per_page) * num_per_page,
{
    let q = (len - 1) / num_per_page;
    assert((len - 1) == q * num_per_page + (len - 1) % num_per_page) by (nonlinear_arith)
        requires
            num_per_page > 0,
            q == (len - 1) / num_per_page,
    ;
    assert(0 <= (len - 1) % num_per_page < num_per_page) by (nonlinear_arith)
        requires
            num_per_page > 0,
    ;
    assert((q + 1) * num_per_page == q * num_per_page + num_per_page) by (nonlinear_arith);
}

/// The navigation of a list just loaded: the first page, and as many page
/// numbers as fit (at least one).
pub fn initial_pages_info(len: usize, num_per_page: usize, num_pages: usize) -> (i: Info)
    requires
        num_per_page > 0,
        num_pages >= 1,
    ensures
        i.current == 1,
        i.start == 1,
        i.total == page_count(len as int, num_per_page as int),
        i.end == (if i.total < 1 {
            1
        } else if i.total > num_pages {
            num_pages as int
        } else {
            i.total as int
        }),
{
    let total = page_total(len, num_per_page);
    let end = if total < 1 {
        1
    } else if total > num_pages {
        num_pages
    } else {
        total
    };
    Info { current: 1, start: 1, end, total }
}

/// The navigation after the list's items changed: back to the default with
/// no items (or with the first item of an empty list), otherwise the pages
/// kept (from `cache` when there is one) but within the new number of pages.
pub fn updated_pages_info(info: Info, cache: Option<Info>, len: usize, num_per_page: usize) -> (r: Info)
    requires
        num_per_page > 0,
    ensures
        ({
            let total = page_count(len as int, num_per_page as int);
            let kept = match cache {
                Some(p) => p,
                None => info,
            };
            if len == 0 || (info.total == 0 && total == 1) {
                r == (Info { current: 1, total: 0, start: 1, end: 1 })
            } else {
                &&& r.total == total
                &&& r.current == least(kept.current as int, total)
                &&& r.start == least(kept.start as int, total)
                &&& r.end == (if total < 1 {
                    1
                } else if total > kept.end {
                    kept.end as int
                } else {
                    total
                })
            }
        }),
{
    if len == 0 {
        return Info::default();
    }
    let total = page_total(len, num_per_page);
    if info.total == 0 && total == 1 {
        return Info::default();
    }
    let kept = match cache {
        Some(p) => p,
        None => info,
    };
    let current = if kept.current < total { kept.current } else { total };
    let start = if kept.start < total { kept.start } else { total };
    let end = if total < 1 {
        1
    } else if total > kept.end {
        kept.end
    } else {
        total
    };
    Info { current, total, start, end }
}

/// Whether the option is offered.
pub open spec fn offered(visible: Seq<SortListKind>, k: SortListKind) -> bool {
    visible.contains(k)
}

pub fn is_offered(visible: &[SortListKind], k: SortListKind) -> (b: bool)
    ensures
        b == offered(visible@, k),
{
    let mut i: usize = 0;
    while i < visible.len()
        invariant
            0 <= i <= visible@.len(),
            forall|q: int| 0 <= q < i ==> visible@[q] != k,
        decreases visible@.len() - i,
    {
        let same = match (visible[i], k) {
            (SortListKind::LatestFirst, SortListKind::LatestFirst) => true,
            (SortListKind::Ascending, SortListKind::Ascending) => true,
            (SortListKind::Descending, SortListKind::Descending) => true,
            _ => false,
        };
        if same {
            assert(visible@[i as int] == k);
            return true;
        }
        i = i + 1;
    }
    false
}

/// The sort option shown for a list: the first column's direction when the
/// list is sorted by it, latest first when no column is sorted (ascending
/// when latest first is not offered); nothing when the option is not offered.
pub open spec fn sort_list_kind(sort: Option<SortColumn>, visible: Seq<SortListKind>) -> Option<SortListKind> {
    let desired = match sort {
        Some(s) => if s.index == 0 {
            match s.status {
                SortStatus::Ascending => Some(SortListKind::Ascending),
                SortStatus::Descending => Some(SortListKind::Descending),
                SortStatus::Unsorted => None,
            }
        } else {
            None
        },
        None => if offered(visible, SortListKind::LatestFirst) {
            Some(SortListKind::LatestFirst)
        } else {
            Some(SortListKind::Ascending)
        },
    };
    match desired {
        Some(d) => if offered(visible, d) {
            Some(d)
        } else {
            None
        },
        None => None,
    }
}

/// The sort option shown for a list.
pub fn desired_sort_list_kind(sort: Option<SortColumn>, visible: &[SortListKind]) -> (r: Option<SortListKind>)
    ensures
        r == sort_list_kind(sort, visible@),
{
    let desired = match sort {
        Some(s) => {
            if s.index == 0 {
                match s.status {
                    SortStatus::Ascending => Some(SortListKind::Ascending),
                    SortStatus::Descending => Some(SortListKind::Descending),
                    SortStatus::Unsorted => None,
                }
            } else {
                None
            }
        },
        None => {
            if is_offered(visible, SortListKind::LatestFirst) {
                Some(SortListKind::LatestFirst)
            } else {
                Some(SortListKind::Ascending)
            }
        },
    };
    match desired {
        Some(d) => if is_offered(visible, d) {
            Some(d)
        } else {
            None
        },
        None => None,
    }
}

/// How many of the items at positions `start..=end` (from 1) are checked.
pub open spec fn checked_on_page(keys: Seq<Seq<char>>, checked: Seq<Seq<char>>, start: int, end: int) -> nat
    decreases end - start + 1,
{
    if end < start {
        0
    } else {
        checked_on_page(keys, checked, start, end - 1) + if 1 <= end <= keys.len() && checked.contains(
            keys[end - 1],
        ) {
            1nat
        } else {
            0nat
        }
    }
}

proof fn lemma_checked_on_page_bound(keys: Seq<Seq<char>>, checked: Seq<Seq<char>>, start: int, end: int)
    ensures
        checked_on_page(keys, checked, start, end) <= if end < start { 0 } else { end - start + 1 },
    decreases end - start + 1,
{
    if end >= start {
        lemma_checked_on_page_bound(keys, checked, start, end - 1);
    }
}

/// The state of the "check all" box of a page: unchecked when no item on it is
/// checked, checked when all of positions `start..=end` are, partly otherwise.
pub fn page_check_status(sorted_keys: &Vec<String>, checked: &Vec<String>, start: usize, end: usize) -> (s: CheckStatus)
    requires
        start >= 1,
        end < usize::MAX,
    ensures
        ({
            let n = checked_on_page(string_views(sorted_keys@), string_views(checked@), start as int, end as int);
            s == (if n == 0 {
                CheckStatus::Unchecked
            } else if n == end - start + 1 {
                CheckStatus::Checked
            } else {
                CheckStatus::Indeterminate
            })
        }),
{
    let ghost keys = string_views(sorted_keys@);
    let ghost ch = string_views(checked@);
    if end < start {
        return CheckStatus::Unchecked;
    }
    let mut n: usize = 0;
    let mut index: usize = start;
    while index <= end
        invariant
            start <= index,
            index <= end + 1,
            end < usize::MAX,
            start >= 1,
            keys == string_views(sorted_keys@),
            ch == string_views(checked@),
            n == checked_on_page(keys, ch, start as int, index - 1),
        decreases end + 1 - index,
    {
        proof {
            lemma_checked_on_page_bound(keys, ch, start as int, index - 1);
        }
        if index - 1 < sorted_keys.len() {
            assert(keys[index - 1] == sorted_keys@[index - 1]@);
            if holds(checked, &sorted_keys[index - 1]) {
                n = n + 1;
            }
        }
        index = index + 1;
    }
    if n == 0 {
        CheckStatus::Unchecked
    } else if n == end - start + 1 {
        CheckStatus::Checked
    } else {
        CheckStatus::Indeterminate
    }
}

} // verus!
