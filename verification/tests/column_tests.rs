use frontary::items::InputNic;
use frontary::{
    DomainNameColumn, FileColumn, HostNetworkGroupColumn, NicColumn, SelectMultipleColumn,
    SelectSingleColumn, TagColumn, TextColumn, Unsigned32Column, Unsigned8Column,
    VecSelectColumn, ViewString,
};

#[test]
fn test_domain_name_column_display() {
    let domain_col = DomainNameColumn {
        domain: ViewString::Raw("example.com".to_string()),
        display: None,
    };

    assert_eq!(domain_col.to_string(), "example.com");
}

#[test]
fn test_domain_name_column_with_display() {
    let domain_col = DomainNameColumn {
        domain: ViewString::Raw("example.com".to_string()),
        display: Some("<b>example.com</b>".to_string()),
    };

    // Display should be ignored in string representation, only domain is used
    assert_eq!(domain_col.to_string(), "example.com");
}

fn pair(k: &str, v: &str) -> (String, ViewString) {
    (k.to_string(), ViewString::Key(v.to_string()))
}

#[test]
fn text_columns() {
    let t = TextColumn { text: ViewString::Key("title".to_string()), display: None };
    assert_eq!(t.to_string(), "title");
    let f = FileColumn { filename: "a.csv".to_string() };
    assert_eq!(f.to_string(), "a.csv");
}

#[test]
fn list_columns_are_joined_by_commas() {
    let h = HostNetworkGroupColumn {
        host_network_group: vec!["1.1.1.1".to_string(), "10.0.0.0/8".to_string()],
    };
    assert_eq!(h.to_string(), "1.1.1.1,10.0.0.0/8");
    let tags = TagColumn { tags: vec!["x".to_string()] };
    assert_eq!(tags.to_string(), "x");
    let empty = TagColumn { tags: vec![] };
    assert_eq!(empty.to_string(), "");
    let m = SelectMultipleColumn { selected: vec![pair("1", "one"), pair("2", "two")] };
    assert_eq!(m.to_string(), "one,two");
}

#[test]
fn select_columns() {
    let s = SelectSingleColumn { selected: Some(pair("k", "v")), display: None };
    assert_eq!(s.to_string(), "v");
    let none = SelectSingleColumn { selected: None, display: None };
    assert_eq!(none.to_string(), "");
    let v = VecSelectColumn {
        selected: vec![vec![pair("a", "A"), pair("b", "B")], vec![], vec![pair("c", "C")]],
    };
    assert_eq!(v.to_string(), "A,B |  | C");
}

#[test]
fn number_columns() {
    assert_eq!(Unsigned32Column { value: Some(4_000_000_000) }.to_string(), "4000000000");
    assert_eq!(Unsigned32Column { value: None }.to_string(), "");
    assert_eq!(Unsigned8Column { value: Some(7) }.to_string(), "7");
}

#[test]
fn nic_columns() {
    let n = NicColumn {
        nics: vec![
            InputNic { name: "eth0".to_string(), interface: "10.0.0.1/24".to_string(), gateway: "10.0.0.254".to_string() },
            InputNic { name: "e1".to_string(), interface: String::new(), gateway: String::new() },
        ],
    };
    assert_eq!(
        n.to_string(),
        "{eth0: 10.0.0.1/24(interface) 10.0.0.254(gateway)} {e1: (interface) (gateway)} "
    );
}

#[test]
fn selecting_an_id_again_replaces_its_value() {
    let mut m = SelectMultipleColumn::new();
    m.insert("1".to_string(), ViewString::Raw("one".to_string()));
    m.insert("2".to_string(), ViewString::Raw("two".to_string()));
    m.insert("1".to_string(), ViewString::Raw("uno".to_string()));
    assert_eq!(m.selected.len(), 2);
    assert_eq!(m.to_string(), "uno,two");
}
