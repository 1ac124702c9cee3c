use frontary::checkbox::{aggregate_children, click_status, inherited_status, radio_status};
use frontary::comparison::{IncompletePairOfValues, cmp_statement_head, cmp_statement_symbol, cmp_statement_tail};
use frontary::config::{Essential, validate_extensions};
use frontary::home;
use frontary::verification::{
    InvalidMessage, NicCheck, Verification, missing_group_cells, nic_has_input, vec_select_fill,
    verify_nic, verify_unsigned32,
};
use frontary::{
    CheckStatus, CommonError, Comparison, ComparisonKind, ComparisonValue, ComplexSelection,
    InputNic, InputTagGroup, Item, Language, NotificationCategory, NotificationType,
    SelectMultipleItem, SelectionExtraInfo, TextItem, ValueKind, ViewString, gen_notifications,
};

fn s(v: &[&str]) -> Vec<String> {
    v.iter().map(|x| x.to_string()).collect()
}

fn nic(name: &str, interface: &str, gateway: &str) -> InputNic {
    InputNic { name: name.to_string(), interface: interface.to_string(), gateway: gateway.to_string() }
}

#[test]
fn clicking_a_free_box_toggles_it() {
    assert!(click_status(CheckStatus::Unchecked, None, None) == CheckStatus::Checked);
    assert!(click_status(CheckStatus::Checked, None, None) == CheckStatus::Unchecked);
    assert!(click_status(CheckStatus::Indeterminate, None, None) == CheckStatus::Unchecked);
}

#[test]
fn clicking_a_box_under_a_parent_takes_the_parent_state() {
    assert!(click_status(CheckStatus::Checked, None, Some(CheckStatus::Indeterminate)) == CheckStatus::Indeterminate);
    assert!(click_status(CheckStatus::Unchecked, None, Some(CheckStatus::Checked)) == CheckStatus::Checked);
}

#[test]
fn a_fixed_box_keeps_its_state() {
    for current in [CheckStatus::Checked, CheckStatus::Unchecked, CheckStatus::Indeterminate] {
        for fixed in [CheckStatus::Checked, CheckStatus::Unchecked, CheckStatus::Indeterminate] {
            for parent in [None, Some(CheckStatus::Checked), Some(CheckStatus::Unchecked)] {
                let after = click_status(current, Some(fixed), parent);
                if current == fixed {
                    assert!(after == fixed);
                }
                assert!(click_status(after, Some(fixed), parent) == fixed || after != fixed);
            }
        }
    }
    assert!(click_status(CheckStatus::Unchecked, Some(CheckStatus::Checked), None) == CheckStatus::Checked);
}

#[test]
fn inherited_and_radio_states() {
    assert!(inherited_status(Some(CheckStatus::Unchecked), Some(CheckStatus::Checked), CheckStatus::Checked) == CheckStatus::Unchecked);
    assert!(inherited_status(None, Some(CheckStatus::Unchecked), CheckStatus::Checked) == CheckStatus::Unchecked);
    assert!(inherited_status(None, None, CheckStatus::Indeterminate) == CheckStatus::Indeterminate);
    assert!(radio_status(true) == CheckStatus::Unchecked);
    assert!(radio_status(false) == CheckStatus::Checked);
}

#[test]
fn a_parent_follows_its_children() {
    assert!(aggregate_children(&[]).is_none());
    assert!(aggregate_children(&[Some(CheckStatus::Checked), Some(CheckStatus::Checked)]) == Some(CheckStatus::Checked));
    assert!(aggregate_children(&[Some(CheckStatus::Unchecked)]) == Some(CheckStatus::Unchecked));
    assert!(aggregate_children(&[Some(CheckStatus::Checked), Some(CheckStatus::Unchecked)]) == Some(CheckStatus::Indeterminate));
    assert!(aggregate_children(&[Some(CheckStatus::Checked), None]) == Some(CheckStatus::Indeterminate));
}

#[test]
fn check_status_default_is_unchecked() {
    assert!(CheckStatus::default() == CheckStatus::Unchecked);
}

#[test]
fn comparison_needs_both_values_of_a_range() {
    let r = Comparison::try_new(ComparisonKind::OpenRange, ComparisonValue::Integer(Some(1)), None);
    assert!(r.is_err());
    let e: IncompletePairOfValues = r.err().expect("an error");
    assert_eq!(e.to_string(), "Incomplete Pair of Values");
}

#[test]
fn comparison_is_rebuilt_from_its_parts() {
    let c = Comparison::try_new(
        ComparisonKind::CloseRange,
        ComparisonValue::Integer(Some(1)),
        Some(ComparisonValue::Integer(Some(9))),
    )
    .ok()
    .expect("a comparison");
    assert!(c.comparison_kind() == ComparisonKind::CloseRange);
    assert!(c.value_kind() == ValueKind::Integer);
    assert!(c.first() == ComparisonValue::Integer(Some(1)));
    assert!(c.second() == Some(ComparisonValue::Integer(Some(9))));
    let again = Comparison::try_new(c.comparison_kind(), c.first(), c.second()).ok().expect("rebuilt");
    assert!(again == c);
}

#[test]
fn a_single_value_comparison_ignores_a_second_value() {
    let c = Comparison::try_new(
        ComparisonKind::Less,
        ComparisonValue::String(Some("a".to_string())),
        Some(ComparisonValue::String(Some("b".to_string()))),
    )
    .ok()
    .expect("a comparison");
    assert!(c.second().is_none());
    assert!(c.value_kind() == ValueKind::String);
}

#[test]
fn comparison_kind_texts() {
    assert!(ComparisonKind::Less.to_text() == "x < a");
    assert!(ComparisonKind::NotRightOpenRange.to_text() == "!(a \u{2264} x < b)");
    assert!(ComparisonKind::OpenRange.chain_cmp());
    assert!(!ComparisonKind::NotContain.chain_cmp());
    assert_eq!(cmp_statement_head(ComparisonKind::NotOpenRange), "!(");
    assert_eq!(cmp_statement_tail(ComparisonKind::NotOpenRange), ")");
    assert_eq!(cmp_statement_head(ComparisonKind::OpenRange), "");
    assert_eq!(cmp_statement_symbol(ComparisonKind::NotEqual), " != ");
    assert_eq!(cmp_statement_symbol(ComparisonKind::LeftOpenRange), " < x \u{2264} ");
    assert!(ValueKind::Float.to_text() == "Float");
}

#[test]
fn comparison_values_serialize_with_bincode_defaults() {
    assert_eq!(ComparisonValue::Integer(Some(1)).serialize(), Some(vec![2]));
    assert_eq!(ComparisonValue::Integer(Some(-1)).serialize(), Some(vec![1]));
    assert_eq!(ComparisonValue::Integer(Some(300)).serialize(), Some(vec![251, 88, 2]));
    assert_eq!(ComparisonValue::String(Some("ab".to_string())).serialize(), Some(vec![2, 97, 98]));
    let bits = 1.5f64.to_bits();
    assert_eq!(ComparisonValue::Float(Some(bits)).serialize(), Some(1.5f64.to_le_bytes().to_vec()));
    assert_eq!(ComparisonValue::Integer(None).serialize(), None);
}

#[test]
fn notifications_of_common_errors() {
    let n = gen_notifications(NotificationType::CommonError(CommonError::UnknownError));
    assert_eq!(n.message, "Unknown error");
    assert_eq!(n.sub_message, "");
    assert!(n.category == NotificationCategory::Fail);
    assert!(n.time.is_none());
    let n = gen_notifications(NotificationType::CommonError(CommonError::HttpStatusNoSuccess(404)));
    assert_eq!(n.message, "No success HTTPS status code");
    assert_eq!(n.sub_message, "404");
    assert_eq!(n.status_code, Some(404));
    let n = gen_notifications(NotificationType::CommonError(CommonError::GraphQLParseError));
    assert_eq!(n.message, "GraphQL parse error");
    assert_eq!(n.status_code, None);
}

#[test]
fn notifications_of_error_lists() {
    let n = gen_notifications(NotificationType::ErrorList(
        "Failed".to_string(),
        s(&["first", "second", "403 Forbidden"]),
    ));
    assert_eq!(n.message, "Failed");
    assert_eq!(n.sub_message, "first & second & Unauthorized");
    let n = gen_notifications(NotificationType::ErrorList("x".to_string(), s(&["only"])));
    assert_eq!(n.sub_message, "only");
    let n = gen_notifications(NotificationType::ErrorList("x".to_string(), vec![]));
    assert_eq!(n.sub_message, "");
}

#[test]
fn unsigned_values_within_bounds() {
    assert!(verify_unsigned32(5, 1, 10) == Verification::Valid);
    assert!(verify_unsigned32(1, 1, 10) == Verification::Valid);
    assert!(verify_unsigned32(11, 1, 10) == Verification::Invalid(InvalidMessage::InvalidInput));
}

#[test]
fn network_interfaces_are_checked() {
    let none = NicCheck { name: None, interface: None, gateway: None };
    assert!(verify_nic(&nic("", "", "")) == none);
    assert!(verify_nic(&nic("eth0", "10.0.0.1/24", "10.0.0.254")) == none);
    assert!(
        verify_nic(&nic("eth0", "", ""))
            == NicCheck {
                name: None,
                interface: Some(InvalidMessage::InterfaceRequired),
                gateway: Some(InvalidMessage::GatewayRequired),
            }
    );
    assert!(
        verify_nic(&nic("", "10.0.0.1", "x"))
            == NicCheck {
                name: Some(InvalidMessage::InterfaceNameRequired),
                interface: Some(InvalidMessage::WrongInterface),
                gateway: Some(InvalidMessage::WrongGateway),
            }
    );
    assert!(nic_has_input(&nic("", "", "1")));
    assert!(!nic_has_input(&nic("", "", "")));
}

#[test]
fn required_cells_of_a_group() {
    let rows = vec![vec![Some(true), Some(true)], vec![Some(false), Some(true)], vec![Some(true), None]];
    let required = vec![true, true];
    let missing = missing_group_cells(&rows, &required, false);
    assert_eq!(missing, vec![(1, 1), (2, 0), (2, 1)]);
    let missing = missing_group_cells(&rows, &required, true);
    assert_eq!(missing, vec![(0, 0), (0, 1), (1, 1), (2, 0), (2, 1)]);
    let missing = missing_group_cells(&rows, &vec![false, true], false);
    assert_eq!(missing, vec![(1, 1), (2, 1)]);
}

#[test]
fn selections_fill() {
    assert_eq!(vec_select_fill(&vec![vec![], vec![]]), Some(true));
    assert_eq!(vec_select_fill(&vec![s(&["a"]), s(&["b"])]), Some(false));
    assert_eq!(vec_select_fill(&vec![s(&["a"]), vec![]]), None);
}

#[test]
fn file_extensions_are_validated() {
    let r = validate_extensions(&s(&[".txt", "csv", "bad ext", "x!y", "tar.gz", "\u{d55c}"]));
    assert_eq!(r, s(&[".txt", ".csv", ".tar.gz", ".\u{d55c}"]));
    assert!(validate_extensions(&[]).is_empty());
    assert_eq!(validate_extensions(&s(&["c#", "rs"])), s(&[".rs"]));
}

#[test]
fn essential_title() {
    let e = Essential { title: "Name".to_string(), notice: "", required: true };
    assert_eq!(e.title(), "Name");
}

#[test]
fn home_item_key() {
    let i = home::Item::KeyString("k1".to_string(), ViewString::Raw("v".to_string()));
    assert_eq!(i.key(), "k1");
}

#[test]
fn items_and_view_strings() {
    let i = Item::new("id7".to_string(), ViewString::Key("label".to_string()));
    assert_eq!(i.id(), "id7");
    assert_eq!(i.value(), "label");
    assert_eq!(ViewString::Raw("r".to_string()).to_string(), "r");
}

#[test]
fn complex_selection_counts_selected_options() {
    let sel = ComplexSelection {
        predefined: Some(vec![
            ("a".to_string(), Some(SelectionExtraInfo::Basic)),
            ("b".to_string(), None),
        ]),
        custom: vec![("c".to_string(), None)],
    };
    assert_eq!(sel.len(), (Some(1), 0));
    assert!(!sel.is_empty());
    let none = ComplexSelection { predefined: None, custom: vec![] };
    assert_eq!(none.len(), (None, 0));
    assert!(!none.is_empty());
    let empty = ComplexSelection { predefined: Some(vec![]), custom: vec![("c".to_string(), None)] };
    assert!(empty.is_empty());
}

#[test]
fn language_tags() {
    assert_eq!(Language::English.tag(), "en-US");
    assert_eq!(Language::Korean.tag(), "ko-KR");
    assert_eq!(Language::Korean.language_subtag(), "ko");
    assert!(Language::from_tag("ko") == Language::Korean);
    assert!(Language::from_tag("en-GB") == Language::English);
    assert!(Language::from_tag("k") == Language::English);
    for l in [Language::English, Language::Korean] {
        assert!(Language::from_tag(&l.to_tag_string()) == l);
    }
}

#[test]
fn text_and_selection_items() {
    let mut t = TextItem::new("abc".to_string());
    assert_eq!(t.text(), "abc");
    t.set("");
    assert!(t.is_empty());
    let m = SelectMultipleItem::new(s(&["a", "b", "a"]));
    assert_eq!(m.selected_list(), s(&["a", "b"]));
}

#[test]
fn tag_group_emptiness() {
    let mut g = InputTagGroup { old: s(&["t"]), new: None, edit: None, delete: None };
    assert!(!g.is_empty());
    g.clear();
    assert!(g.is_empty());
}

#[test]
fn kinds_are_read_from_their_texts() {
    assert!(ValueKind::from_text("Integer") == Some(ValueKind::Integer));
    assert!(ValueKind::from_text("integer").is_none());
    assert!(ValueKind::all() == vec![ValueKind::String, ValueKind::Integer, ValueKind::Float]);
    assert!(ComparisonKind::from_text("a \u{2264} x < b") == Some(ComparisonKind::RightOpenRange));
    assert!(ComparisonKind::from_text("!(a < x < b)") == Some(ComparisonKind::NotOpenRange));
    assert!(ComparisonKind::from_text("x<a").is_none());
    for k in [ComparisonKind::Less, ComparisonKind::NotContain, ComparisonKind::CloseRange] {
        assert!(ComparisonKind::from_text(k.to_text()) == Some(k));
    }
}

use frontary::network::input_is_acceptable;
use frontary::notification::{close, close_all, timer_millis, timer_to_add};
use frontary::NotificationItem;

fn note(msg: &str, time: Option<u64>) -> NotificationItem {
    NotificationItem {
        message: msg.to_string(),
        sub_message: String::new(),
        status_code: None,
        time,
        category: NotificationCategory::Fail,
    }
}

#[test]
fn timers_of_new_notifications() {
    assert_eq!(timer_millis(1500), 1500);
    assert_eq!(timer_millis(u128::from(u32::MAX) + 1), 10_000);
    let list = vec![(1usize, note("a", None)), (2, note("b", Some(2500)))];
    assert_eq!(timer_to_add(&list, &vec![]), Some((2, Some(2500))));
    assert_eq!(timer_to_add(&list, &vec![2]), None);
    let untimed = vec![(3usize, note("c", None))];
    assert_eq!(timer_to_add(&untimed, &vec![1]), Some((3, None)));
    assert_eq!(timer_to_add(&vec![], &vec![]), None);
}

#[test]
fn closing_notifications() {
    let mut list = vec![(1usize, note("a", None)), (2, note("b", None)), (3, note("c", None))];
    let mut running = vec![1usize, 2, 3];
    close(&mut list, &mut running, 2);
    let serials: Vec<usize> = list.iter().map(|(s, _)| *s).collect();
    assert_eq!(serials, vec![1, 3]);
    assert_eq!(list[1].1.message, "c");
    assert_eq!(running, vec![1, 3]);
    close_all(&mut list, &mut running);
    assert!(list.is_empty() && running.is_empty());
}

#[test]
fn range_input_acceptance() {
    assert!(input_is_acceptable(""));
    assert!(input_is_acceptable("1.1.1.1"));
    assert!(input_is_acceptable("1.1.1.1 ~ 1.1.1.9"));
    assert!(!input_is_acceptable("1.1.1"));
}

#[test]
fn trim_nics_drops_incomplete_interfaces() {
    let nics = vec![
        nic("eth0", "192.168.1.10/24", "192.168.1.1"),
        nic("eth1", "", "192.168.2.1"),
        nic("", "", ""),
        nic("eth2", "10.0.0.2/8", "10.0.0.1"),
    ];
    let kept = frontary::verification::trim_nics(&nics);
    assert!(kept == vec![nic("eth0", "192.168.1.10/24", "192.168.1.1"), nic("eth2", "10.0.0.2/8", "10.0.0.1")]);
}
