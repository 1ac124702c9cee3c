use frontary::checked::{check_all, key_changes, update_checked};
use frontary::list::{
    desired_sort_list_kind, initial_pages_info, item_range, page_check_status, page_total,
    updated_pages_info,
};
use frontary::list_order::{sort_by_column, sort_keys, sort_latest_first, text_is_before};
use frontary::pages::{Message, fit_window, parse_usize, update};
use frontary::{CheckStatus, PagesInfo, SortColumn, SortListKind, SortStatus};

fn s(v: &[&str]) -> Vec<String> {
    v.iter().map(|x| x.to_string()).collect()
}

fn entry(key: &str, text: &str, time: Option<i128>) -> (String, String, Option<i128>) {
    (key.to_string(), text.to_string(), time)
}

fn info(current: usize, total: usize, start: usize, end: usize) -> PagesInfo {
    PagesInfo { current, total, start, end }
}

#[test]
fn item_range_of_a_page() {
    assert_eq!(item_range(2, 10, 15), (11, 15));
    assert_eq!(item_range(1, 10, 5), (1, 5));
    assert_eq!(item_range(1, 10, 30), (1, 10));
    assert_eq!(item_range(4, 10, 15), (31, 15));
}

#[test]
fn page_total_counts_pages() {
    assert_eq!(page_total(0, 10), 0);
    assert_eq!(page_total(1, 10), 1);
    assert_eq!(page_total(10, 10), 1);
    assert_eq!(page_total(11, 10), 2);
}

#[test]
fn pages_hold_every_item() {
    for len in 1..50usize {
        for per in 1..8usize {
            let t = page_total(len, per);
            assert!((t - 1) * per < len && len <= t * per);
        }
    }
}

#[test]
fn initial_pages_info_of_a_new_list() {
    assert_eq!(initial_pages_info(25, 10, 2), info(1, 3, 1, 2));
    assert_eq!(initial_pages_info(0, 10, 5), info(1, 0, 1, 1));
    assert_eq!(initial_pages_info(5, 10, 5), info(1, 1, 1, 1));
}

#[test]
fn updated_pages_info_keeps_the_position_within_the_pages() {
    assert_eq!(updated_pages_info(info(3, 3, 1, 3), None, 15, 10), info(2, 2, 1, 2));
    assert_eq!(updated_pages_info(info(3, 3, 1, 3), Some(info(1, 3, 1, 1)), 25, 10), info(1, 3, 1, 1));
    assert_eq!(updated_pages_info(info(2, 2, 1, 2), None, 0, 10), PagesInfo::default());
    assert_eq!(updated_pages_info(info(1, 0, 1, 1), None, 3, 10), PagesInfo::default());
}

#[test]
fn sort_option_shown_for_a_list() {
    let all = [SortListKind::LatestFirst, SortListKind::Ascending, SortListKind::Descending];
    assert_eq!(desired_sort_list_kind(None, &all), Some(SortListKind::LatestFirst));
    assert_eq!(
        desired_sort_list_kind(None, &[SortListKind::Ascending, SortListKind::Descending]),
        Some(SortListKind::Ascending)
    );
    assert_eq!(desired_sort_list_kind(None, &[SortListKind::Descending]), None);
    let desc = SortColumn { index: 0, status: SortStatus::Descending };
    assert_eq!(desired_sort_list_kind(Some(desc), &all), Some(SortListKind::Descending));
    assert_eq!(desired_sort_list_kind(Some(desc), &[SortListKind::Ascending]), None);
    let other = SortColumn { index: 1, status: SortStatus::Ascending };
    assert_eq!(desired_sort_list_kind(Some(other), &all), None);
    let unsorted = SortColumn { index: 0, status: SortStatus::Unsorted };
    assert_eq!(desired_sort_list_kind(Some(unsorted), &all), None);
}

#[test]
fn text_order_is_by_characters() {
    assert!(text_is_before("a", "b"));
    assert!(text_is_before("a", "ab"));
    assert!(!text_is_before("ab", "a"));
    assert!(!text_is_before("a", "a"));
    assert!(text_is_before("", "a"));
    assert!(text_is_before("Z", "a"));
    assert!(text_is_before("z", "\u{e9}"));
}

#[test]
fn sort_keys_by_a_column() {
    let entries = vec![entry("a", "b", Some(1)), entry("b", "a", Some(2)), entry("c", "a", Some(3))];
    let asc = SortColumn { index: 0, status: SortStatus::Ascending };
    assert_eq!(sort_keys(entries.clone(), Some(asc), &[]), s(&["c", "b", "a"]));
    let desc = SortColumn { index: 0, status: SortStatus::Descending };
    assert_eq!(sort_keys(entries.clone(), Some(desc), &[]), s(&["a", "c", "b"]));
}

#[test]
fn sort_keys_by_a_column_breaks_ties_by_key() {
    let entries = vec![entry("z", "x", None), entry("m", "x", None), entry("q", "x", Some(5))];
    let asc = SortColumn { index: 2, status: SortStatus::Ascending };
    assert_eq!(sort_keys(entries, Some(asc), &[]), s(&["q", "m", "z"]));
}

#[test]
fn sort_keys_latest_first() {
    let entries = vec![entry("a", "a", Some(1)), entry("b", "b", Some(3)), entry("c", "c", Some(2))];
    let visible = [SortListKind::LatestFirst, SortListKind::Ascending];
    assert_eq!(sort_keys(entries.clone(), None, &visible), s(&["b", "c", "a"]));
    let untimed = vec![entry("a", "a", None), entry("c", "c", None), entry("b", "b", None)];
    assert_eq!(sort_keys(untimed, None, &visible), s(&["c", "b", "a"]));
}

#[test]
fn sort_keys_keeps_the_given_order_without_latest_first() {
    let entries = vec![entry("b", "b", Some(1)), entry("a", "a", Some(3))];
    assert_eq!(sort_keys(entries, None, &[SortListKind::Ascending]), s(&["b", "a"]));
}

#[test]
fn sorting_keeps_every_entry() {
    let entries = vec![
        entry("k1", "t2", Some(5)),
        entry("k2", "t1", None),
        entry("k3", "t2", Some(7)),
        entry("k4", "t0", Some(1)),
    ];
    let mut sorted = sort_by_column(entries.clone(), true);
    let mut given = entries.clone();
    sorted.sort();
    given.sort();
    assert_eq!(sorted, given);
    let mut latest = sort_latest_first(entries.clone());
    latest.sort();
    assert_eq!(latest, given);
}

#[test]
fn key_changes_between_lists() {
    let (added, deleted) = key_changes(&s(&["a", "b"]), &s(&["b", "c", "c"]));
    assert_eq!(added, s(&["c"]));
    assert_eq!(deleted, s(&["a"]));
}

#[test]
fn check_all_on_a_page() {
    let keys = s(&["a", "b", "c"]);
    let mut checked = s(&["x"]);
    check_all(&mut checked, &keys, 1, 2, true);
    assert_eq!(checked, s(&["x", "a", "b"]));
    check_all(&mut checked, &keys, 1, 2, true);
    assert_eq!(checked, s(&["x", "a", "b"]));
    check_all(&mut checked, &keys, 2, 5, false);
    assert_eq!(checked, s(&["x", "a"]));
}

#[test]
fn update_checked_keeps_old_checks_on_the_page() {
    let keys = s(&["a", "b", "c", "d"]);
    let r = update_checked(&s(&["a", "c", "d"]), &keys, 1, 3, &s(&["c"]));
    assert_eq!(r, s(&["a"]));
}

#[test]
fn page_check_status_of_a_page() {
    let keys = s(&["a", "b", "c"]);
    assert!(page_check_status(&keys, &s(&["a"]), 1, 2) == CheckStatus::Indeterminate);
    assert!(page_check_status(&keys, &s(&["b", "a"]), 1, 2) == CheckStatus::Checked);
    assert!(page_check_status(&keys, &s(&[]), 1, 2) == CheckStatus::Unchecked);
    assert!(page_check_status(&keys, &s(&["c"]), 3, 2) == CheckStatus::Unchecked);
    assert!(page_check_status(&keys, &s(&["c"]), 3, 4) == CheckStatus::Indeterminate);
}

#[test]
fn parse_usize_reads_page_numbers() {
    assert_eq!(parse_usize("12"), Some(12));
    assert_eq!(parse_usize("+7"), Some(7));
    assert_eq!(parse_usize(""), None);
    assert_eq!(parse_usize("+"), None);
    assert_eq!(parse_usize("1a"), None);
    assert_eq!(parse_usize("-1"), None);
    assert_eq!(parse_usize("99999999999999999999999"), None);
}

#[test]
fn page_moves() {
    let mut go = 0usize;
    let mut i = info(1, 12, 1, 5);
    update(&mut i, &mut go, 5, Message::Next);
    assert_eq!(i, info(6, 12, 6, 10));
    update(&mut i, &mut go, 5, Message::Next);
    assert_eq!(i, info(11, 12, 11, 12));
    update(&mut i, &mut go, 5, Message::Previous);
    assert_eq!(i, info(10, 12, 6, 10));
    update(&mut i, &mut go, 5, Message::Last);
    assert_eq!(i, info(12, 12, 11, 12));
    update(&mut i, &mut go, 5, Message::First);
    assert_eq!(i, info(1, 12, 1, 5));
    update(&mut i, &mut go, 5, Message::Page(3));
    assert_eq!(i, info(3, 12, 1, 5));
    update(&mut i, &mut go, 5, Message::InputPage("9".to_string()));
    assert_eq!(go, 9);
    update(&mut i, &mut go, 5, Message::GoToPage);
    assert_eq!(i, info(9, 12, 8, 12));
    update(&mut i, &mut go, 5, Message::InputPage("2".to_string()));
    update(&mut i, &mut go, 5, Message::GoToPage);
    assert_eq!(i, info(2, 12, 2, 6));
    update(&mut i, &mut go, 5, Message::InputPage("x".to_string()));
    assert_eq!(go, 0);
    update(&mut i, &mut go, 5, Message::GoToPage);
    assert_eq!(i, info(2, 12, 2, 6));
}

#[test]
fn page_windows_start_on_a_multiple_of_the_window() {
    let mut go = 0usize;
    let mut i = info(1, 23, 1, 5);
    for msg in [Message::Next, Message::Next, Message::Previous, Message::Last, Message::First] {
        update(&mut i, &mut go, 5, msg);
        assert_eq!((i.start - 1) % 5, 0);
    }
}

#[test]
fn fit_window_grows_the_shown_pages() {
    let mut i = info(1, 12, 1, 2);
    fit_window(&mut i, 5);
    assert_eq!(i, info(1, 12, 1, 5));
    let mut j = info(12, 12, 11, 12);
    fit_window(&mut j, 5);
    assert_eq!(j, info(12, 12, 8, 12));
}

use frontary::list_control::{
    check_all_action, click_expandable, click_sort, default_second_sort, sort_of_list_kind,
    toggle_checked, toggle_second_layer,
};
use frontary::DataType;

#[test]
fn header_clicks_toggle_the_sort() {
    let first = click_sort(None, 2);
    assert!(first == SortColumn { index: 2, status: SortStatus::Ascending });
    let second = click_sort(Some(first), 2);
    assert!(second == SortColumn { index: 2, status: SortStatus::Descending });
    let third = click_sort(Some(second), 2);
    assert!(third == first);
    assert!(click_sort(Some(second), 1) == SortColumn { index: 1, status: SortStatus::Ascending });
    let unsorted = SortColumn { index: 2, status: SortStatus::Unsorted };
    assert!(click_sort(Some(unsorted), 2) == first);
}

#[test]
fn sort_options_choose_a_sort() {
    assert!(sort_of_list_kind(Some(SortListKind::LatestFirst)) == Some(None));
    assert!(
        sort_of_list_kind(Some(SortListKind::Descending))
            == Some(Some(SortColumn { index: 0, status: SortStatus::Descending }))
    );
    assert!(sort_of_list_kind(None).is_none());
    assert!(default_second_sort(Some(DataType::Customer)) == Some(SortColumn { index: 0, status: SortStatus::Ascending }));
    assert!(default_second_sort(Some(DataType::Network)).is_none());
    assert!(default_second_sort(None).is_none());
}

#[test]
fn toggling_an_item_twice_restores_the_checks() {
    let mut checked = s(&["a", "b"]);
    toggle_checked(&mut checked, &"c".to_string());
    assert_eq!(checked, s(&["a", "b", "c"]));
    toggle_checked(&mut checked, &"a".to_string());
    assert_eq!(checked, s(&["b", "c"]));
    toggle_checked(&mut checked, &"a".to_string());
    toggle_checked(&mut checked, &"a".to_string());
    assert_eq!(checked, s(&["b", "c"]));
}

#[test]
fn check_all_boxes() {
    assert_eq!(check_all_action(CheckStatus::Unchecked), (true, true));
    assert_eq!(check_all_action(CheckStatus::Indeterminate), (true, false));
    assert_eq!(check_all_action(CheckStatus::Checked), (false, false));
    assert!(toggle_second_layer(CheckStatus::Unchecked) == (CheckStatus::Checked, true));
    assert!(toggle_second_layer(CheckStatus::Indeterminate) == (CheckStatus::Checked, false));
    assert!(toggle_second_layer(CheckStatus::Checked) == (CheckStatus::Unchecked, false));
}

#[test]
fn opening_an_item_closes_the_others_on_the_page() {
    let keys = s(&["a", "b", "c"]);
    let mut open = s(&["a", "z"]);
    let ids = click_expandable(&mut open, &keys, 1, 2, &"b".to_string());
    assert_eq!(ids, s(&["b"]));
    assert_eq!(open, s(&["z", "b"]));
    let ids = click_expandable(&mut open, &keys, 1, 2, &"b".to_string());
    assert!(ids.is_empty());
    assert_eq!(open, s(&["z"]));
}

#[test]
fn moves_that_need_no_window_accept_an_empty_one() {
    let mut i = info(3, 10, 1, 5);
    let mut go = 0usize;
    update(&mut i, &mut go, 0, Message::First);
    assert!(i == info(1, 10, 1, 0));
    update(&mut i, &mut go, 0, Message::Page(4));
    assert!(i == info(4, 10, 1, 0));
    update(&mut i, &mut go, 0, Message::GoToPage);
    assert!(i == info(4, 10, 1, 0));
}
