//! Page navigation of long lists: which page is shown and which page
//! numbers are offered.
use vstd::prelude::*;

use crate::ip::{all_digits, digits_value, is_digit};
use crate::text::chars_of;

verus! {

/// Where the list is: the current page, the number of pages, and the first
/// and last page number shown. Pages count from 1.
#[derive(Clone, Copy, PartialEq, Eq, Debug)]
pub struct Info {
    pub current: usize,
    pub total: usize,
    pub start: usize,
    pub end: usize,
}

impl Default for Info {
    fn default() -> (i: Self)
        ensures
            i == (Info { current: 1, total: 0, start: 1, end: 1 }),
    {
        Info { current: 1, total: 0, start: 1, end: 1 }
    }
}

/// What the user does to the page navigation.
pub enum Message {
    Previous,
    Next,
    First,
    Last,
    Page(usize),
    InputPage(String),
    GoToPage,
    InputError,
}

/// The number that `usize::from_str` reads from `s`: an optional `+`, then
/// one or more ASCII digits, at most `usize::MAX`.
pub open spec fn spec_parse_usize(s: Seq<char>) -> Option<usize> {
    let d = if s.len() > 0 && s[0] == '+' {
        s.drop_first()
    } else {
        s
    };
    if d.len() >= 1 && all_digits(d) && digits_value(d) <= usize::MAX {
        Some(digits_value(d) as usize)
    } else {
        None
    }
}

proof fn lemma_digits_prefix(s: Seq<char>, k: int)
    requires
        all_digits(s),
        0 <= k <= s.len(),
    ensures
        digits_value(s.take(k)) <= digits_value(s),
    decreases s.len(),
{
    if k < s.len() {
        let t = s.drop_last();
        assert(all_digits(t)) by {
            assert forall|i: int| 0 <= i < t.len() implies is_digit(#[trigger] t[i]) by {
                assert(t[i] == s[i]);
            }
        }
        lemma_digits_prefix(t, k);
        assert(t.take(k) =~= s.take(k));
    } else {
        assert(s.take(k) =~= s);
    }
}

/// Reads a page number typed by the user.
pub fn parse_usize(s: &str) -> (r: Option<usize>)
    ensures
        r == spec_parse_usize(s@),
{
    let v = chars_of(s);
    let n = v.len();
    let mut i: usize = 0;
    if n > 0 && v[0] == '+' {
        i = 1;
    }
    let ghost d = if v@.len() > 0 && v@[0] == '+' { v@.drop_first() } else { v@ };
    assert(d =~= v@.skip(i as int));
    if i == n {
        return None;
    }
    let first = i;
    let mut val: usize = 0;
    while i < n
        invariant
            first <= i <= n,
            n == v@.len(),
            v@ == s@,
            d == (if s@.len() > 0 && s@[0] == '+' { s@.drop_first() } else { s@ }),
            d == v@.skip(first as int),
            d.len() >= 1,
            all_digits(d.take(i - first)),
            val == digits_value(d.take(i - first)),
        decreases n - i,
    {
        let c = v[i];
        if !('0' <= c && c <= '9') {
            assert(d[i - first] == c);
            assert(!is_digit(d[i - first]));
            assert(!all_digits(d));
            return None;
        }
        let digit: usize = (c as u32 - 48) as usize;
        assert(crate::ip::digit_value(c) == digit);
        let ghost t = d.take(i - first + 1);
        assert(t.drop_last() =~= d.take(i - first));
        assert(t.last() == c);
        assert(all_digits(t)) by {
            assert forall|q: int| 0 <= q < t.len() implies is_digit(#[trigger] t[q]) by {
                if q < t.len() - 1 {
                    assert(t[q] == d.take(i - first)[q]);
                }
            }
        }
        assert(digits_value(t) == val * 10 + digit);
        match val.checked_mul(10) {
            Some(m) => match m.checked_add(digit) {
                Some(x) => {
                    val = x;
                },
                None => {
                    proof {
                        if all_digits(d) {
                            lemma_digits_prefix(d, i - first + 1);
                        }
                    }
                    return None;
                },
            },
            None => {
                proof {
                    if all_digits(d) {
                        lemma_digits_prefix(d, i - first + 1);
                    }
                }
                return None;
            },
        }
        i = i + 1;
    }
    assert(d.take(n - first) =~= d);
    Some(val)
}

/// The moves that do not overflow or divide by zero: a window of no pages
/// is refused only by the moves that divide by it or count back from it.
pub open spec fn update_defined(info: Info, go_to_page: usize, num_pages: usize, msg: Message) -> bool {
    match msg {
        Message::Next => info.start + num_pages <= usize::MAX && info.end + num_pages <= usize::MAX,
        Message::Previous => 0 < num_pages < usize::MAX && info.end >= 1,
        Message::Last => info.total > num_pages ==> (num_pages > 0 && info.total < usize::MAX),
        Message::GoToPage => 1 <= go_to_page <= info.total ==> (num_pages > 0 && go_to_page
            + num_pages <= usize::MAX),
        _ => true,
    }
}

pub open spec fn least(a: int, b: int) -> int {
    if a <= b { a } else { b }
}

/// The navigation after a move.
pub open spec fn next_info(info: Info, go_to_page: usize, num_pages: usize, msg: Message) -> Info {
    let n = num_pages as int;
    match msg {
        Message::Next => Info {
            start: (info.start + n) as usize,
            end: least(info.end + n, info.total as int) as usize,
            current: (info.start + n) as usize,
            total: info.total,
        },
        Message::Previous => {
            let offset = if (info.end as int) % n > 0 { (info.end as int) % n } else { n };
            Info {
                start: if info.start > n + 1 { (info.start - n) as usize } else { 1 },
                end: (info.end - offset) as usize,
                current: (info.end - offset) as usize,
                total: info.total,
            }
        },
        Message::First => Info { start: 1, current: 1, end: least(n, info.total as int) as usize, total: info.total },
        Message::Last => {
            let count = if (info.total as int) % n == 0 { n } else { (info.total as int) % n };
            Info {
                start: if info.total > n { (info.total + 1 - count) as usize } else { 1 },
                current: info.total,
                end: info.total,
                total: info.total,
            }
        },
        Message::Page(p) => Info { current: p, ..info },
        Message::GoToPage => if 1 <= go_to_page <= info.total {
            if info.total - go_to_page < n - 1 {
                Info {
                    current: go_to_page,
                    start: if info.total <= n { 1 } else { (info.total + 1 - n) as usize },
                    end: info.total,
                    total: info.total,
                }
            } else {
                Info {
                    current: go_to_page,
                    start: go_to_page,
                    end: least(go_to_page + n - 1, info.total as int) as usize,
                    total: info.total,
                }
            }
        } else {
            info
        },
        _ => info,
    }
}

/// The page number typed so far after a move.
pub open spec fn next_go_to_page(go_to_page: usize, msg: Message) -> usize {
    match msg {
        Message::InputPage(text) => match spec_parse_usize(text@) {
            Some(p) => p,
            None => 0,
        },
        _ => go_to_page,
    }
}

/// Applies a move of the user to the navigation. `go_to_page` is the page
/// number typed into the box, which `GoToPage` jumps to.
pub fn update(info: &mut Info, go_to_page: &mut usize, num_pages: usize, msg: Message)
    requires
        update_defined(*old(info), *old(go_to_page), num_pages, msg),
    ensures
        *final(info) == next_info(*old(info), *old(go_to_page), num_pages, msg),
        *final(go_to_page) == next_go_to_page(*old(go_to_page), msg),
{
    match msg {
        Message::Next => {
            info.start = info.start + num_pages;
            info.end = if info.end + num_pages < info.total { info.end + num_pages } else { info.total };
            info.current = info.start;
        },
        Message::Previous => {
            info.start = if info.start > num_pages + 1 {
                info.start - num_pages
            } else {
                1
            };
            let end_offset = info.end % num_pages;
            let end_offset = if end_offset > 0 {
                assert(info.end % num_pages <= info.end) by (nonlinear_arith)
                    requires
                        num_pages > 0,
                ;
                end_offset
            } else {
                assert(info.end >= num_pages) by (nonlinear_arith)
                    requires
                        info.end % num_pages == 0,
                        info.end >= 1,
                        num_pages > 0,
                ;
                num_pages
            };
            info.end = info.end - end_offset;
            info.current = info.end;
        },
        Message::First => {
            info.start = 1;
            info.current = 1;
            info.end = if num_pages < info.total { num_pages } else { info.total };
        },
        Message::Last => {
            info.start = if info.total > num_pages {
                let last_page_display_count = info.total % num_pages;
                let last_page_display_count = if last_page_display_count == 0 {
                    num_pages
                } else {
                    last_page_display_count
                };
                info.total + 1 - last_page_display_count
            } else {
                1
            };
            info.current = info.total;
            info.end = info.total;
        },
        Message::Page(page) => {
            info.current = page;
        },
        Message::InputPage(text) => {
            *go_to_page = match parse_usize(text.as_str()) {
                Some(p) => p,
                None => 0,
            };
        },
        Message::GoToPage => {
            if *go_to_page >= 1 && *go_to_page <= info.total {
                info.current = *go_to_page;
                if info.total - info.current < num_pages - 1 {
                    if info.total <= num_pages {
                        info.start = 1;
                    } else {
                        info.start = info.total + 1 - num_pages;
                    }
                    info.end = info.total;
                } else {
                    info.start = info.current;
                    let last = info.start + num_pages - 1;
                    info.end = if last < info.total { last } else { info.total };
                }
            }
        },
        Message::InputError => {},
    }
}

/// The page numbers shown fill a window of `num_pages` starting at a
/// multiple of `num_pages` plus one, and end at that window's end or at the
/// last page.
pub open spec fn aligned(info: Info, num_pages: usize) -> bool {
    &&& num_pages > 0
    &&& 1 <= info.start <= info.total
    &&& (info.start - 1) % (num_pages as int) == 0
    &&& info.end == least(info.start + num_pages - 1, info.total as int)
}

/// Moving to the next window, to the previous window, to the first or to the
/// last one keeps the page numbers shown aligned to whole windows.
pub proof fn law_navigation_keeps_windows(info: Info, num_pages: usize, go: usize)
    requires
        aligned(info, num_pages),
        info.total + 2 * num_pages <= usize::MAX,
    ensures
        info.end < info.total ==> aligned(next_info(info, go, num_pages, Message::Next), num_pages),
        info.start > 1 ==> aligned(next_info(info, go, num_pages, Message::Previous), num_pages),
        aligned(next_info(info, go, num_pages, Message::First), num_pages),
        aligned(next_info(info, go, num_pages, Message::Last), num_pages),
{
    let n = num_pages as int;
    let s = info.start as int;
    let e = info.end as int;
    let t = info.total as int;
    let k = (s - 1) / n;
    assert(s - 1 == k * n) by (nonlinear_arith)
        requires
            (s - 1) % n == 0,
            n > 0,
            k == (s - 1) / n,
    ;
    if e < t {
        let nx = next_info(info, go, num_pages, Message::Next);
        assert((nx.start - 1) % n == 0) by (nonlinear_arith)
            requires
                nx.start - 1 == s - 1 + n,
                s - 1 == k * n,
                n > 0,
        ;
    }
    if s > 1 {
        let pv = next_info(info, go, num_pages, Message::Previous);
        assert(k >= 1) by (nonlinear_arith)
            requires
                s - 1 == k * n,
                s > 1,
                n > 0,
        ;
        assert(s > n) by (nonlinear_arith)
            requires
                s - 1 == k * n,
                k >= 1,
                n > 0,
        ;
        if e == s + n - 1 {
            assert(e % n == 0) by (nonlinear_arith)
                requires
                    e == s + n - 1,
                    s - 1 == k * n,
                    n > 0,
            ;
        } else {
            assert(e == t);
            assert(e % n == e - s + 1) by (nonlinear_arith)
                requires
                    e == s - 1 + (e - s + 1),
                    s - 1 == k * n,
                    0 < e - s + 1 < n,
                    n > 0,
            ;
        }
        if s == n + 1 {
            assert(pv.start == 1);
        } else {
            assert((pv.start - 1) % n == 0) by (nonlinear_arith)
                requires
                    pv.start - 1 == s - 1 - n,
                    s - 1 == k * n,
                    n > 0,
            ;
        }
    }
    let lt = next_info(info, go, num_pages, Message::Last);
    if t > n {
        let c = if t % n == 0 { n } else { t % n };
        if t % n == 0 {
            assert((t - n) % n == 0) by (nonlinear_arith)
                requires
                    t % n == 0,
                    n > 0,
                    t > n,
            ;
        } else {
            assert((t - t % n) % n == 0 && t % n < n) by (nonlinear_arith)
                requires
                    n > 0,
                    t > n,
            ;
        }
        assert(lt.start - 1 == t - c);
    }
    let fs = next_info(info, go, num_pages, Message::First);
    assert(0int % n == 0) by (nonlinear_arith)
        requires
            n > 0,
    ;
    assert((fs.start - 1) % n == 0);
}

/// Makes the window show `num_pages` pages where there are enough pages:
/// it grows to the right, or else back to the left.
pub fn fit_window(info: &mut Info, num_pages: usize)
    requires
        old(info).start <= old(info).end + 1,
        old(info).end < usize::MAX,
        old(info).start + num_pages <= usize::MAX,
    ensures
        *final(info) == (if old(info).end + 1 - old(info).start < num_pages {
            if old(info).start + num_pages - 1 < old(info).total {
                Info { end: (old(info).start + num_pages - 1) as usize, ..*old(info) }
            } else if old(info).end > num_pages && old(info).end + 1 - num_pages > 0 {
                Info { start: (old(info).end + 1 - num_pages) as usize, ..*old(info) }
            } else {
                *old(info)
            }
        } else {
            *old(info)
        }),
{
    if info.end + 1 - info.start < num_pages {
        if info.start + num_pages - 1 < info.total {
            info.end = info.start + num_pages - 1;
        } else if info.end > num_pages && info.end + 1 - num_pages > 0 {
            info.start = info.end + 1 - num_pages;
        }
    }
}

/// Each move lands on the page it names: going to a typed page that exists
/// makes it the current page, the first page is page 1, the last page is the
/// last one, and a clicked page becomes the current one.
pub proof fn law_moves_land_on_their_page(info: Info, go_to_page: usize, num_pages: usize, page: usize)
    ensures
        1 <= go_to_page <= info.total ==> next_info(info, go_to_page, num_pages, Message::GoToPage).current
            == go_to_page,
        !(1 <= go_to_page <= info.total) ==> next_info(info, go_to_page, num_pages, Message::GoToPage)
            == info,
        next_info(info, go_to_page, num_pages, Message::First).current == 1,
        next_info(info, go_to_page, num_pages, Message::Last).current == info.total,
        next_info(info, go_to_page, num_pages, Message::Page(page)).current == page,
        next_info(info, go_to_page, num_pages, Message::GoToPage).total == info.total,
{
}

} // verus!