use frontary::config::HostNetworkKind;
use frontary::host_input::{
    DeleteIndex, EntryMessage, HostNetworkInput, ItemType, KeyAction, SaveAnswer, max_reached,
    order_after_removal,
};
use frontary::shorten::{shorten_candidates, shorten_text};
use frontary::{InputHostNetworkGroup, IpRange};

fn s(v: &[&str]) -> Vec<String> {
    v.iter().map(|x| x.to_string()).collect()
}

fn typed(field: &mut HostNetworkInput, text: &str) {
    field.type_text(text.to_string());
}

#[test]
fn entries_are_added_to_their_lists() {
    let mut g = InputHostNetworkGroup::new();
    let mut f = HostNetworkInput::new(&g);
    typed(&mut f, "1.1.1.1,");
    assert!(f.enter(",", &mut g, None, HostNetworkKind::All));
    assert_eq!(g.hosts, s(&["1.1.1.1"]));
    assert_eq!(f.input, "");
    typed(&mut f, "10.0.0.0/8");
    assert!(f.enter("Enter", &mut g, None, HostNetworkKind::All));
    typed(&mut f, "1.1.1.1-1.1.1.5");
    assert!(f.enter("Enter", &mut g, None, HostNetworkKind::All));
    assert_eq!(g.networks, s(&["10.0.0.0/8"]));
    assert!(g.ranges == vec![IpRange { start: "1.1.1.1".to_string(), end: "1.1.1.5".to_string() }]);
    assert!(f.view_order == vec![ItemType::Host(0), ItemType::Network(0), ItemType::Range(0)]);
    assert!(f.message.is_none());
}

#[test]
fn an_existing_entry_is_refused() {
    let mut g = InputHostNetworkGroup::new();
    g.hosts.push("1.1.1.1".to_string());
    g.ranges.push(IpRange { start: "1.1.1.1".to_string(), end: "1.1.1.5".to_string() });
    let mut f = HostNetworkInput::new(&g);
    typed(&mut f, "1.1.1.1");
    assert!(!f.enter("Enter", &mut g, None, HostNetworkKind::All));
    assert!(f.message == Some(EntryMessage::Exists));
    assert_eq!(f.input, "1.1.1.1");
    typed(&mut f, "1.1.1.1 - 1.1.1.5");
    assert!(!f.enter("Enter", &mut g, None, HostNetworkKind::All));
    assert!(f.message == Some(EntryMessage::Exists));
    assert_eq!(g.hosts.len() + g.networks.len() + g.ranges.len(), 2);
}

#[test]
fn text_that_is_no_entry_is_refused() {
    let mut g = InputHostNetworkGroup::new();
    let mut f = HostNetworkInput::new(&g);
    typed(&mut f, "abc");
    assert!(!f.enter("Enter", &mut g, None, HostNetworkKind::All));
    assert!(f.message == Some(EntryMessage::Invalid));
    assert_eq!(f.input, "abc");
    typed(&mut f, "10.0.0.0/8");
    assert!(!f.enter("Enter", &mut g, None, HostNetworkKind::HostOnly));
    assert!(f.message == Some(EntryMessage::InvalidHost));
    assert!(g.is_empty());
}

#[test]
fn only_the_part_before_a_separator_is_taken() {
    let mut g = InputHostNetworkGroup::new();
    let mut f = HostNetworkInput::new(&g);
    typed(&mut f, "2.2.2.2;junk");
    assert!(f.add_entry(&mut g, HostNetworkKind::All) == Some(true));
    assert_eq!(g.hosts, s(&["2.2.2.2"]));
    typed(&mut f, "");
    assert!(f.add_entry(&mut g, HostNetworkKind::All).is_none());
}

#[test]
fn too_many_entries_are_reported() {
    let mut g = InputHostNetworkGroup::new();
    g.hosts.push("1.1.1.1".to_string());
    assert!(max_reached(&g, Some(0)));
    assert!(!max_reached(&g, Some(1)));
    assert!(!max_reached(&g, None));
    let mut f = HostNetworkInput::new(&g);
    typed(&mut f, "2.2.2.2");
    assert!(!f.enter("Enter", &mut g, Some(0), HostNetworkKind::All));
    assert!(f.message == Some(EntryMessage::MaxNum));
    assert_eq!(g.hosts.len(), 1);
}

#[test]
fn deleting_an_entry_moves_later_ones_up() {
    let mut g = InputHostNetworkGroup::new();
    g.hosts = s(&["1.1.1.1", "2.2.2.2"]);
    g.networks = s(&["10.0.0.0/8"]);
    let mut f = HostNetworkInput::new(&g);
    assert!(f.view_order == vec![ItemType::Host(0), ItemType::Host(1), ItemType::Network(0)]);
    f.delete(&mut g, DeleteIndex::Host(0));
    assert_eq!(g.hosts, s(&["2.2.2.2"]));
    assert!(f.view_order == vec![ItemType::Host(0), ItemType::Network(0)]);
    f.delete(&mut g, DeleteIndex::Host(5));
    assert_eq!(g.hosts, s(&["2.2.2.2"]));
    assert!(f.view_order == vec![ItemType::Host(0), ItemType::Network(0)]);
}

#[test]
fn deleting_what_was_just_added_restores_the_field() {
    let mut g = InputHostNetworkGroup::new();
    g.hosts = s(&["1.1.1.1"]);
    let mut f = HostNetworkInput::new(&g);
    let before_hosts = g.hosts.clone();
    let before_order = f.view_order.clone();
    typed(&mut f, "3.3.3.3");
    assert!(f.add_entry(&mut g, HostNetworkKind::All) == Some(true));
    f.delete(&mut g, DeleteIndex::Host(1));
    assert_eq!(g.hosts, before_hosts);
    assert!(f.view_order == before_order);
}

#[test]
fn backspace_removes_the_last_shown_entry() {
    let mut g = InputHostNetworkGroup::new();
    g.hosts = s(&["1.1.1.1"]);
    g.networks = s(&["10.0.0.0/8"]);
    let mut f = HostNetworkInput::new(&g);
    assert!(f.press_key("Backspace", &mut g) == KeyAction::Changed);
    assert!(g.networks.is_empty());
    assert!(f.view_order == vec![ItemType::Host(0)]);
    typed(&mut f, "x");
    assert!(f.press_key("Backspace", &mut g) == KeyAction::Nothing);
    assert_eq!(g.hosts.len(), 1);
    assert!(f.press_key("Tab", &mut g) == KeyAction::Enter);
    typed(&mut f, "");
    assert!(f.press_key("Tab", &mut g) == KeyAction::Nothing);
    assert!(f.press_key("Backspace", &mut g) == KeyAction::Changed);
    assert!(f.press_key("Backspace", &mut g) == KeyAction::Nothing);
    assert!(g.is_empty());
}

#[test]
fn saving_tells_the_parent_whether_to_save() {
    let mut g = InputHostNetworkGroup::new();
    let mut f = HostNetworkInput::new(&g);
    assert!(f.verify_to_save(&mut g, None, HostNetworkKind::All) == SaveAnswer::Save);
    typed(&mut f, "bad");
    assert!(f.verify_to_save(&mut g, None, HostNetworkKind::All) == SaveAnswer::NoSave);
    typed(&mut f, "4.4.4.4");
    assert!(f.verify_to_save(&mut g, None, HostNetworkKind::All) == SaveAnswer::Save);
    assert_eq!(g.hosts, s(&["4.4.4.4"]));
    typed(&mut f, "5.5.5.5");
    assert!(f.verify_to_save(&mut g, Some(0), HostNetworkKind::All) == SaveAnswer::Nothing);
    assert!(f.message == Some(EntryMessage::MaxNum));
}

#[test]
fn shown_order_after_a_removal() {
    let order = vec![ItemType::Range(1), ItemType::Host(2), ItemType::Range(0), ItemType::Range(2)];
    assert!(
        order_after_removal(&order, ItemType::Range(1))
            == vec![ItemType::Host(2), ItemType::Range(0), ItemType::Range(1)]
    );
}

#[test]
fn shortening_candidates() {
    assert!(shorten_candidates("abcd").is_empty());
    assert_eq!(shorten_candidates("abcdef"), s(&["abcde", "abcdef"]));
    assert_eq!(shorten_candidates("\u{d55c}\u{ae00}"), s(&["\u{d55c}\u{ae00}"]));
    assert_eq!(shorten_candidates("ab\u{e9}cd"), s(&["ab\u{e9}c", "ab\u{e9}cd"]));
}

#[test]
fn shortened_texts() {
    assert_eq!(shorten_text("abcdef", 100, 10, &[Some(20), Some(40)]), "abcdef...");
    assert_eq!(shorten_text("abcdef", 100, 10, &[Some(35), Some(40)]), "abcde...");
    assert_eq!(shorten_text("abcdef", 100, 10, &[None, Some(40)]), "abcdef...");
    assert_eq!(shorten_text("abcdef", 70, 10, &[Some(500), Some(500)]), "abcde...");
    assert_eq!(shorten_text("abcdef", 70, 10, &[Some(0), Some(0)]), "abcdef");
    assert_eq!(shorten_text("abcdef", 100, 10, &[Some(1), Some(2)]), "abcdef");
    assert_eq!(shorten_text("abc", 100, 10, &[]), "abc");
}

#[test]
fn shorten_text_narrow_column_shortens() {
    let text = "Very long text that exceeds width";
    let measured: Vec<Option<u32>> = (0..40).map(|i| Some(20 + i)).collect();
    assert_eq!(shorten_text(text, 50, 10, &measured), "Very ...");
}
