use frontary::InputTagGroup;
use frontary::tag_input::{TagInput, TagMessage, keys_without, sorted_keys_of};

fn s(v: &[&str]) -> Vec<String> {
    v.iter().map(|x| x.to_string()).collect()
}

fn known() -> Vec<(String, String)> {
    vec![
        ("k1".to_string(), "Alpha".to_string()),
        ("k2".to_string(), "beta".to_string()),
        ("k3".to_string(), "alphabet".to_string()),
    ]
}

fn empty_group() -> InputTagGroup {
    InputTagGroup { old: vec![], new: None, edit: None, delete: None }
}

fn names(t: &TagInput) -> Vec<String> {
    t.search_list.iter().map(|(_, n)| n.clone()).collect()
}

#[test]
fn offered_tags_are_sorted_by_name() {
    let t = TagInput::new(&known(), &empty_group());
    assert_eq!(names(&t), s(&["Alpha", "alphabet", "beta"]));
    assert_eq!(t.search_cursor, Some(0));
    assert!(t.view_order.is_empty());
}

#[test]
fn typing_filters_offered_tags_ignoring_case() {
    let g = empty_group();
    let mut t = TagInput::new(&known(), &g);
    t.type_text("AL".to_string(), &known(), &g);
    assert_eq!(names(&t), s(&["Alpha", "alphabet"]));
    t.type_text("\u{c5d}".to_string(), &known(), &g);
    assert!(t.search_list.is_empty());
}

#[test]
fn enter_names_a_new_tag_or_chooses_a_known_one() {
    let mut g = empty_group();
    let mut t = TagInput::new(&known(), &g);
    t.type_text("AL".to_string(), &known(), &g);
    assert!(t.enter(&known(), &mut g));
    assert_eq!(g.new, Some("AL".to_string()));
    assert_eq!(t.input, "");
    t.type_text("beta".to_string(), &known(), &g);
    assert!(t.enter(&known(), &mut g));
    assert_eq!(g.old, s(&["k2"]));
    assert_eq!(t.view_order, s(&["k2"]));
    t.type_text("beta".to_string(), &known(), &g);
    assert!(!t.enter(&known(), &mut g));
    assert!(t.message == Some(TagMessage::Exists));
    assert_eq!(g.old, s(&["k2"]));
    t.type_text(String::new(), &known(), &g);
    assert!(!t.enter(&known(), &mut g));
}

#[test]
fn cursor_moves_around_the_offered_list() {
    let mut g = empty_group();
    g.old = s(&["k2"]);
    let mut t = TagInput::new(&known(), &g);
    assert_eq!(names(&t), s(&["Alpha", "alphabet"]));
    assert_eq!(t.tab(), Some("k1".to_string()));
    t.arrow_down();
    assert_eq!(t.search_cursor, Some(1));
    assert_eq!(t.tab(), Some("k3".to_string()));
    t.arrow_down();
    assert_eq!(t.search_cursor, Some(0));
    t.arrow_up();
    assert_eq!(t.search_cursor, Some(1));
    t.arrow_up();
    assert_eq!(t.search_cursor, Some(0));
}

#[test]
fn choosing_and_unchoosing_tags() {
    let mut g = empty_group();
    let mut t = TagInput::new(&known(), &g);
    assert!(t.select_tag("k2".to_string(), &known(), &mut g));
    assert!(t.select_tag("k1".to_string(), &known(), &mut g));
    assert!(!t.select_tag("k1".to_string(), &known(), &mut g));
    assert_eq!(g.old, s(&["k2", "k1"]));
    assert_eq!(t.backspace(), Some("k1".to_string()));
    t.unselect_tag(&"k1".to_string(), &known(), &mut g);
    assert_eq!(g.old, s(&["k2"]));
    assert_eq!(t.view_order, s(&["k2"]));
    assert_eq!(names(&t), s(&["Alpha", "alphabet"]));
}

#[test]
fn editing_a_tag_refuses_a_known_name() {
    let mut g = empty_group();
    let mut t = TagInput::new(&known(), &g);
    t.edit_tag("k2".to_string());
    t.type_edit("alphabet".to_string());
    assert!(!t.edit_done(&known(), &mut g));
    assert!(t.edit_message == Some(TagMessage::Exists));
    assert!(g.edit.is_none());
    t.type_edit("gamma".to_string());
    assert!(t.edit_done(&known(), &mut g));
    assert_eq!(g.edit, Some(("k2".to_string(), "gamma".to_string())));
    assert!(t.edit.is_none());
    assert!(t.edit_message.is_none());
    t.type_edit("x".to_string());
    assert!(!t.edit_done(&known(), &mut g));
    t.cancel_edit();
    assert_eq!(t.input_edit, "");
    t.delete_tag("k3".to_string(), &mut g);
    assert_eq!(g.delete, Some("k3".to_string()));
}

#[test]
fn known_tags_change() {
    let mut g = empty_group();
    g.old = s(&["k2", "k1"]);
    let mut t = TagInput::new(&known(), &g);
    assert_eq!(t.view_order, s(&["k1", "k2"]));
    let now = vec![("k2".to_string(), "beta".to_string()), ("k4".to_string(), "delta".to_string())];
    t.known_changed(&known(), &now, &g);
    assert_eq!(t.view_order, s(&["k2", "k4"]));
    assert_eq!(names(&t), s(&["delta"]));
}

#[test]
fn key_lists() {
    assert_eq!(keys_without(&s(&["a", "b", "a"]), &"a".to_string()), s(&["b"]));
    assert_eq!(sorted_keys_of(&s(&["b", "a", "c"])), s(&["a", "b", "c"]));
}
