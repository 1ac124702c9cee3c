use frontary::CheckStatus;
use frontary::required::{
    FormField, host_network_missing, missing_fields, password_missing, vec_select_missing,
};

fn field(required: bool, empty: bool, checkbox: Option<CheckStatus>, parent: Option<usize>) -> FormField {
    FormField { required, empty, checkbox, parent }
}

#[test]
fn missing_fields_of_a_form() {
    let fields = vec![
        field(true, true, None, None),
        field(false, true, Some(CheckStatus::Checked), None),
        field(true, true, None, Some(1)),
        field(true, false, None, Some(1)),
        field(true, true, Some(CheckStatus::Unchecked), None),
        field(true, true, None, Some(4)),
    ];
    assert_eq!(missing_fields(&fields), vec![0, 2, 4]);
    assert!(missing_fields(&vec![]).is_empty());
}

#[test]
fn select_lists_missing_input() {
    let s = |v: &[&[&str]]| -> Vec<Vec<String>> {
        v.iter().map(|x| x.iter().map(|y| y.to_string()).collect()).collect()
    };
    assert!(vec_select_missing(&s(&[]), &vec![]));
    assert!(vec_select_missing(&s(&[&["a"], &[]]), &vec![false, true]));
    assert!(!vec_select_missing(&s(&[&["a"], &[]]), &vec![true, false]));
    assert!(!vec_select_missing(&s(&[&[]]), &vec![]));
}

#[test]
fn passwords_and_host_groups_missing_input() {
    assert!(password_missing(true, true));
    assert!(!password_missing(false, true));
    assert!(host_network_missing(true, Some(Some(true))));
    assert!(!host_network_missing(true, Some(Some(false))));
    assert!(host_network_missing(true, Some(None)));
    assert!(!host_network_missing(true, None));
    assert!(!host_network_missing(false, Some(Some(true))));
}

use frontary::config::InputSecondId;
use frontary::required::{editing_key, text_conflicts};
use frontary::ViewString;

#[test]
fn the_key_being_edited() {
    let id = Some("row1".to_string());
    assert_eq!(editing_key(&None, &id), id);
    assert_eq!(editing_key(&Some(InputSecondId::Add), &id), None);
    assert_eq!(editing_key(&Some(InputSecondId::Edit("sub".to_string())), &id), Some("sub".to_string()));
}

#[test]
fn unique_texts() {
    let rows = vec![
        ("r1".to_string(), Some(ViewString::Raw("alpha".to_string()))),
        ("r2".to_string(), Some(ViewString::Key("beta".to_string()))),
        ("r3".to_string(), None),
    ];
    assert!(text_conflicts(&"alpha".to_string(), &rows, &None));
    assert!(!text_conflicts(&"alpha".to_string(), &rows, &Some("r1".to_string())));
    assert!(!text_conflicts(&"beta".to_string(), &rows, &None));
    assert!(!text_conflicts(&"gamma".to_string(), &rows, &None));
}
