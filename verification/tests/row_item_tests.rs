use frontary::form::{GroupCell, InputItem};
use frontary::row_item::{item_from_column, group_from_column};
use frontary::{
    CheckStatus, CheckboxColumn, GroupColumn, HostNetworkGroupColumn, InputNic, NicColumn,
    RadioColumn, RowColumn, SelectMultipleColumn, SelectSingleColumn, TagColumn, TextColumn,
    Unsigned32Column, VecSelectColumn, ViewString,
};

fn raw(t: &str) -> ViewString {
    ViewString::Raw(t.to_string())
}

#[test]
fn host_network_texts_are_sorted_into_kinds() {
    let texts = vec!["10.0.0.1".to_string(), "10.0.0.0/8".to_string(), "1.1.1.1 - 1.1.1.9".to_string(), "junk".to_string()];
    let g = group_from_column(&texts);
    assert_eq!(g.hosts, vec!["10.0.0.1".to_string()]);
    assert_eq!(g.networks, vec!["10.0.0.0/8".to_string()]);
    assert_eq!(g.ranges.len(), 1);
    assert_eq!(g.ranges[0].start, "1.1.1.1");
    assert_eq!(g.ranges[0].end, "1.1.1.9");
}

#[test]
fn simple_columns_become_items() {
    let t = item_from_column(&RowColumn::Text(TextColumn { text: raw("abc"), display: None }), 0);
    assert!(matches!(t, InputItem::Text(s) if s == "abc"));
    let s = item_from_column(&RowColumn::SelectSingle(SelectSingleColumn { selected: Some(("k".to_string(), raw("v"))), display: None }), 0);
    assert!(matches!(s, InputItem::SelectSingle(Some(k)) if k == "k"));
    let m = item_from_column(&RowColumn::SelectMultiple(SelectMultipleColumn { selected: vec![("a".to_string(), raw("A")), ("b".to_string(), raw("B"))] }), 0);
    assert!(matches!(m, InputItem::SelectMultiple(v) if v == vec!["a".to_string(), "b".to_string()]));
    let tag = item_from_column(&RowColumn::Tag(TagColumn { tags: vec!["x".to_string()] }), 0);
    assert!(matches!(tag, InputItem::Tag(g) if g.old == vec!["x".to_string()] && g.new.is_none()));
    let u = item_from_column(&RowColumn::Unsigned32(Unsigned32Column { value: Some(7) }), 0);
    assert!(matches!(u, InputItem::Unsigned32(Some(7))));
    let nic = InputNic { name: "e".to_string(), interface: "10.0.0.2/24".to_string(), gateway: "10.0.0.1".to_string() };
    let n = item_from_column(&RowColumn::Nic(NicColumn { nics: vec![nic.clone()] }), 0);
    assert!(matches!(n, InputItem::Nic(v) if v == vec![nic]));
    let vs = item_from_column(&RowColumn::VecSelect(VecSelectColumn { selected: vec![vec![("p".to_string(), raw("P"))], vec![]] }), 0);
    assert!(matches!(vs, InputItem::VecSelect(v) if v == vec![vec!["p".to_string()], Vec::<String>::new()]));
    let h = item_from_column(&RowColumn::HostNetworkGroup(HostNetworkGroupColumn { host_network_group: vec!["10.0.0.1".to_string()] }), 0);
    assert!(matches!(h, InputItem::HostNetworkGroup(g) if g.hosts == vec!["10.0.0.1".to_string()]));
}

#[test]
fn boxes_and_groups_become_items() {
    let cb = CheckboxColumn { status: CheckStatus::Checked, children: Vec::new(), display: Vec::new(), modal: Vec::new() };
    assert!(matches!(item_from_column(&RowColumn::Checkbox(cb), 4), InputItem::Checkbox(4)));
    let radio = RadioColumn { selected: raw("on"), children: Vec::new(), display: Vec::new(), modal: Vec::new() };
    assert!(matches!(item_from_column(&RowColumn::Radio(radio), 0), InputItem::Radio(s) if s == "on"));
    let group = GroupColumn {
        groups: vec![vec![
            RowColumn::Text(TextColumn { text: raw("a"), display: None }),
            RowColumn::Unsigned32(Unsigned32Column { value: None }),
        ]],
    };
    match item_from_column(&RowColumn::Group(group), 0) {
        InputItem::Group(rows) => {
            assert_eq!(rows.len(), 1);
            assert!(matches!(&rows[0][0], GroupCell::Text(s) if s == "a"));
            assert!(matches!(&rows[0][1], GroupCell::Unsigned32(None)));
        }
        _ => panic!("a group"),
    }
}
