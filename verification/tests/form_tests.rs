use frontary::check_tree::CheckNode;
use frontary::form::{
    update_form, FieldRule, FormAction, FormMessage, FormRequest, GroupCell, InputForm, InputItem,
    TagNotice,
};
use frontary::comparison_input::ComparisonBuffer;
use frontary::{Comparison, ComparisonValue, InputTagGroup};
use frontary::network::InputHostNetworkGroup;
use frontary::{CheckStatus, InputNic};

fn rule(required: bool) -> FieldRule {
    FieldRule { required, unique: false, parent: None, low: 0, high: 100 }
}

fn nic(name: &str, interface: &str, gateway: &str) -> InputNic {
    InputNic { name: name.to_string(), interface: interface.to_string(), gateway: gateway.to_string() }
}

fn form(items: Vec<InputItem>, rules: Vec<FieldRule>) -> InputForm {
    let n = items.len();
    InputForm {
        items,
        rules,
        taken: vec![Vec::new(); n],
        confirmations: vec![None; n],
        checks: Vec::new(),
        adding: true,
        required_msg: Vec::new(),
        unique_msg: Vec::new(),
        verify_msg: Vec::new(),
        nic_msg: Vec::new(),
        host_checks: Vec::new(),
        verifying_host_networks: false,
        vec_required: vec![Vec::new(); n],
        max_group_rows: 3,
        cell_required_msg: Vec::new(),
        tag_out: InputTagGroup { old: Vec::new(), new: None, edit: None, delete: None },
        tag_notices: Vec::new(),
        comparison_buffers: (0..n).map(|_| ComparisonBuffer { first: None, second: None }).collect(),
    }
}

const REDRAW: FormAction = FormAction { render: true, request: None };

#[test]
fn deleting_the_last_interface_leaves_one_empty_row() {
    let mut f = form(vec![InputItem::Nic(vec![nic("eth0", "10.0.0.2/24", "10.0.0.1")])], vec![rule(false)]);
    assert_eq!(update_form(&mut f, FormMessage::InputNicDelete(0, 0)), REDRAW);
    match &f.items[0] {
        InputItem::Nic(rows) => assert!(*rows == vec![nic("", "", "")]),
        _ => panic!("the field holds interfaces"),
    }
}

#[test]
fn typing_into_an_interface_edits_its_row() {
    let mut f = form(vec![InputItem::Nic(vec![nic("", "", "")])], vec![rule(true)]);
    f.required_msg = vec![0];
    update_form(&mut f, FormMessage::InputNicName(0, 0, "eth1".to_string()));
    update_form(&mut f, FormMessage::InputNicAdd(0, 0));
    match &f.items[0] {
        InputItem::Nic(rows) => assert!(*rows == vec![nic("eth1", "", ""), nic("", "", "")]),
        _ => panic!("the field holds interfaces"),
    }
    assert!(f.required_msg.is_empty());
}

#[test]
fn typed_text_clears_its_messages() {
    let mut f = form(vec![InputItem::Text(String::new())], vec![rule(true)]);
    f.required_msg = vec![0];
    f.unique_msg = vec![0];
    update_form(&mut f, FormMessage::InputText(0, String::new()));
    assert_eq!(f.required_msg, vec![0]);
    assert!(f.unique_msg.is_empty());
    update_form(&mut f, FormMessage::InputText(0, "abc".to_string()));
    assert!(f.required_msg.is_empty());
    assert!(matches!(&f.items[0], InputItem::Text(t) if t == "abc"));
}

#[test]
fn saving_reports_missing_and_wrong_fields() {
    let mut f = form(
        vec![InputItem::Text(String::new()), InputItem::Unsigned32(Some(500))],
        vec![rule(true), rule(false)],
    );
    let act = update_form(&mut f, FormMessage::Save);
    assert_eq!(act, REDRAW);
    assert_eq!(f.required_msg, vec![0]);
    assert_eq!(f.verify_msg.len(), 1);
    assert_eq!(f.verify_msg[0].0, 1);
}

#[test]
fn saving_a_complete_form_drops_empty_interfaces_and_submits() {
    let mut f = form(
        vec![
            InputItem::Text("name".to_string()),
            InputItem::Nic(vec![nic("eth0", "10.0.0.2/24", "10.0.0.1"), nic("", "", "")]),
        ],
        vec![rule(true), rule(false)],
    );
    let act = update_form(&mut f, FormMessage::Save);
    assert_eq!(act, FormAction { render: true, request: Some(FormRequest::Submit) });
    match &f.items[1] {
        InputItem::Nic(rows) => assert!(*rows == vec![nic("eth0", "10.0.0.2/24", "10.0.0.1")]),
        _ => panic!("the field holds interfaces"),
    }
}

#[test]
fn a_unique_text_held_elsewhere_is_refused() {
    let mut f = form(vec![InputItem::Text("dup".to_string())], vec![FieldRule { unique: true, ..rule(true) }]);
    f.taken = vec![vec!["dup".to_string()]];
    assert_eq!(update_form(&mut f, FormMessage::Save), REDRAW);
    assert_eq!(f.unique_msg, vec![0]);
}

#[test]
fn trying_to_save_without_host_fields_saves_at_once() {
    let mut f = form(vec![InputItem::Text("x".to_string())], vec![rule(false)]);
    let act = update_form(&mut f, FormMessage::TrySave);
    assert_eq!(act, FormAction { render: false, request: Some(FormRequest::Save) });
}

#[test]
fn host_fields_are_checked_before_saving() {
    let group = InputHostNetworkGroup { hosts: Vec::new(), networks: Vec::new(), ranges: Vec::new() };
    let mut f = form(vec![InputItem::HostNetworkGroup(group)], vec![rule(false)]);
    assert_eq!(update_form(&mut f, FormMessage::TrySave), REDRAW);
    assert!(f.verifying_host_networks);
    let entered = InputHostNetworkGroup {
        hosts: vec!["10.0.0.9".to_string(), "10.0.0.1".to_string(), "10.0.0.9".to_string()],
        networks: Vec::new(),
        ranges: Vec::new(),
    };
    let act = update_form(&mut f, FormMessage::RightHostNetworkGroup(0, entered));
    assert_eq!(act, FormAction { render: true, request: Some(FormRequest::Save) });
    assert!(!f.verifying_host_networks);
    match &f.items[0] {
        InputItem::HostNetworkGroup(g) => assert_eq!(g.hosts, vec!["10.0.0.1".to_string(), "10.0.0.9".to_string()]),
        _ => panic!("the field holds hosts"),
    }
}

#[test]
fn clicking_a_checkbox_checks_it() {
    let mut f = form(vec![InputItem::Checkbox(0)], vec![rule(false)]);
    f.checks = vec![CheckNode { status: CheckStatus::Unchecked, always: None, preset: None, parent: None }];
    assert_eq!(update_form(&mut f, FormMessage::ClickCheckbox(0)), REDRAW);
    assert!(f.checks[0].status == CheckStatus::Checked);
}

#[test]
fn invalid_input_changes_nothing() {
    let mut f = form(vec![InputItem::Unsigned8(None)], vec![rule(false)]);
    assert_eq!(update_form(&mut f, FormMessage::InvalidInput), FormAction { render: false, request: None });
    assert_eq!(update_form(&mut f, FormMessage::Escape), FormAction { render: true, request: Some(FormRequest::Escape) });
}

#[test]
fn choosing_in_select_boxes() {
    let mut f = form(
        vec![InputItem::SelectSingle(None), InputItem::SelectMultiple(Vec::new())],
        vec![rule(true), rule(true)],
    );
    f.required_msg = vec![0, 1];
    update_form(&mut f, FormMessage::InputSingleSelect(0, Some(vec!["a".to_string(), "b".to_string()])));
    assert!(matches!(&f.items[0], InputItem::SelectSingle(Some(x)) if x == "a"));
    assert_eq!(f.required_msg, vec![1]);
    update_form(&mut f, FormMessage::InputMultipleSelect(1, None, vec!["x".to_string(), "y".to_string()]));
    assert!(matches!(&f.items[1], InputItem::SelectMultiple(v) if *v == vec!["x".to_string(), "y".to_string()]));
    assert!(f.required_msg.is_empty());
    update_form(&mut f, FormMessage::InputSingleSelect(0, Some(Vec::new())));
    assert!(matches!(&f.items[0], InputItem::SelectSingle(None)));
    assert!(f.required_msg.is_empty());
}

fn text_cell(t: &str) -> GroupCell {
    GroupCell::Text(t.to_string())
}

fn row_count(f: &InputForm) -> usize {
    match &f.items[0] {
        InputItem::Group(rows) => rows.len(),
        _ => panic!("the field is a group"),
    }
}

#[test]
fn deleting_a_group_row_moves_the_marks_below_it_up() {
    let rows = vec![vec![text_cell("a"), text_cell("")], vec![text_cell(""), text_cell("")], vec![text_cell(""), text_cell("c")]];
    let mut f = form(vec![InputItem::Group(rows)], vec![rule(true)]);
    f.cell_required_msg = vec![(0, 0, 1), (0, 1, 0), (0, 2, 0), (7, 2, 0)];
    assert_eq!(update_form(&mut f, FormMessage::InputGroupDelete(0, 1, true)), REDRAW);
    assert_eq!(row_count(&f), 2);
    assert_eq!(f.cell_required_msg, vec![(0, 0, 1), (0, 1, 0), (7, 2, 0)]);
    assert!(f.required_msg.is_empty());
}

#[test]
fn deleting_the_last_group_row_asks_for_a_fresh_one() {
    let mut f = form(vec![InputItem::Group(vec![vec![text_cell("a")]])], vec![rule(true)]);
    let act = update_form(&mut f, FormMessage::InputGroupDelete(0, 0, true));
    assert_eq!(act, FormAction { render: true, request: Some(FormRequest::AddGroupRow(0)) });
    assert_eq!(f.required_msg, vec![0]);
    assert_eq!(update_form(&mut f, FormMessage::InputGroupAdd(0, vec![text_cell("")])), REDRAW);
    assert_eq!(row_count(&f), 1);
}

#[test]
fn a_full_group_takes_no_more_rows() {
    let rows = vec![vec![text_cell("a")], vec![text_cell("b")], vec![text_cell("c")]];
    let mut f = form(vec![InputItem::Group(rows)], vec![rule(false)]);
    let act = update_form(&mut f, FormMessage::InputGroupAdd(0, vec![text_cell("")]));
    assert_eq!(act, FormAction { render: false, request: None });
    assert_eq!(row_count(&f), 3);
}

#[test]
fn tag_changes_are_handed_to_the_page() {
    let mut f = form(vec![InputItem::Tag(InputTagGroup { old: Vec::new(), new: None, edit: None, delete: None })], vec![rule(true)]);
    f.required_msg = vec![0];
    let tags = InputTagGroup {
        old: vec!["k1".to_string()],
        new: Some("fresh".to_string()),
        edit: Some(("k1".to_string(), String::new())),
        delete: Some("k2".to_string()),
    };
    let act = update_form(&mut f, FormMessage::InputTagGroup(0, tags));
    assert_eq!(act, FormAction { render: false, request: None });
    assert_eq!(f.tag_notices, vec![TagNotice::AddTag, TagNotice::DeleteTag]);
    assert_eq!(f.tag_out.new, Some("fresh".to_string()));
    assert_eq!(f.tag_out.edit, None);
    assert_eq!(f.tag_out.delete, Some("k2".to_string()));
    assert!(f.required_msg.is_empty());
}

#[test]
fn radio_and_row_select_choices() {
    let mut f = form(
        vec![InputItem::Radio(String::new()), InputItem::VecSelect(vec![Vec::new(), Vec::new()])],
        vec![rule(true), rule(true)],
    );
    f.vec_required = vec![Vec::new(), vec![true, false]];
    f.required_msg = vec![0, 1];
    update_form(&mut f, FormMessage::InputRadio(0, "on".to_string()));
    assert!(matches!(&f.items[0], InputItem::Radio(s) if s == "on"));
    assert_eq!(f.required_msg, vec![1]);
    update_form(&mut f, FormMessage::InputVecSelect(1, 1, Some(vec!["x".to_string()])));
    assert!(matches!(&f.items[1], InputItem::VecSelect(v) if *v == vec![Vec::<String>::new(), vec!["x".to_string()]]));
    assert!(f.required_msg.is_empty());
    f.required_msg.clear();
    update_form(&mut f, FormMessage::Save);
    assert_eq!(f.required_msg, vec![1]);
}

#[test]
fn entering_a_range_comparison() {
    let mut f = form(vec![InputItem::Comparison(None)], vec![rule(true)]);
    f.required_msg = vec![0];
    let kinds = Some(vec!["a < x < b".to_string()]);
    update_form(&mut f, FormMessage::InputComparisonKind(0, Some(vec!["Integer".to_string()]), kinds.clone()));
    assert!(matches!(&f.items[0], InputItem::Comparison(Some(Comparison::OpenRange(ComparisonValue::Integer(None), ComparisonValue::Integer(None))))));
    update_form(&mut f, FormMessage::InputComparisonValue(0, 0, ComparisonValue::Integer(Some(1)), kinds.clone()));
    assert_eq!(f.required_msg, vec![0]);
    update_form(&mut f, FormMessage::InputComparisonValue(0, 1, ComparisonValue::Integer(Some(5)), kinds.clone()));
    assert!(matches!(&f.items[0], InputItem::Comparison(Some(Comparison::OpenRange(ComparisonValue::Integer(Some(1)), ComparisonValue::Integer(Some(5)))))));
    assert!(f.required_msg.is_empty());
    update_form(&mut f, FormMessage::InputComparisonValueKind(0));
    assert!(matches!(&f.items[0], InputItem::Comparison(None)));
    assert!(f.comparison_buffers[0].first.is_none());
}
