use frontary::localized::found_or_empty;
use frontary::{Item, Language, NetworkItem, ViewString};
use json_gettext::JSONGetText;

fn texts() -> JSONGetText<'static> {
    let mut b = JSONGetText::build("en-US");
    b.add_json_owned("en-US", r#"{"hello": "Hello", "bye": "Bye"}"#).expect("english");
    b.add_json_owned("ko-KR", r#"{"hello": "\uc548\ub155"}"#).expect("korean");
    b.build().expect("texts")
}

#[test]
fn keys_are_looked_up() {
    let t = texts();
    let v = ViewString::Key("hello".to_string());
    assert_eq!(v.to_string_txt(&t, Language::English), "Hello");
    assert_eq!(v.to_string_txt(&t, Language::Korean), "\u{c548}\u{b155}");
    let missing = ViewString::Key("nothing".to_string());
    assert_eq!(missing.to_string_txt(&t, Language::English), "");
}

#[test]
fn missing_texts_fall_back_to_the_default_language() {
    let t = texts();
    assert_eq!(ViewString::Key("bye".to_string()).to_string_txt(&t, Language::Korean), "Bye");
}

#[test]
fn raw_text_is_shown_as_it_is() {
    let t = texts();
    assert_eq!(ViewString::Raw("hello".to_string()).to_string_txt(&t, Language::Korean), "hello");
    let i = Item::new("1".to_string(), ViewString::Raw("x".to_string()));
    assert_eq!(i.value_txt(&t, Language::English), "x");
    let n = NetworkItem::new("2".to_string(), ViewString::Key("hello".to_string()), None);
    assert_eq!(n.value_txt(&t, Language::English), "Hello");
    assert_eq!(n.value(), "hello");
}

#[test]
fn found_text_or_nothing() {
    assert_eq!(found_or_empty(Some("a".to_string())), "a");
    assert_eq!(found_or_empty(None), "");
}

#[test]
fn selected_names_are_shown_sorted() {
    let t = texts();
    let col = frontary::SelectMultipleColumn {
        selected: vec![
            ("1".to_string(), ViewString::Raw("zeta".to_string())),
            ("2".to_string(), ViewString::Key("hello".to_string())),
            ("3".to_string(), ViewString::Raw("alpha".to_string())),
        ],
    };
    assert_eq!(col.shown_names(&t, Language::English), vec!["Hello", "alpha", "zeta"]);
}

#[test]
fn tag_names_are_shown_sorted() {
    let col = frontary::TagColumn { tags: vec!["k2".to_string(), "k9".to_string(), "k1".to_string()] };
    let config = frontary::config::TagConfig {
        ess: frontary::config::Essential { title: "Tags".to_string(), notice: "", required: false },
        name_map: vec![("k1".to_string(), "web".to_string()), ("k2".to_string(), "db".to_string())],
    };
    assert_eq!(col.shown_names(&config), vec!["db", "web"]);
}

#[test]
fn texts_are_sorted_by_character() {
    let v = vec!["b".to_string(), "ab".to_string(), "a".to_string(), "B".to_string()];
    assert_eq!(frontary::list_order::sort_texts(v), vec!["B", "a", "ab", "b"]);
}
