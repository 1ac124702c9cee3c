//! The texts shown for keys of localized texts, read from the loaded texts.
use json_gettext::JSONGetText;
use vstd::prelude::*;

use crate::list::SelectMultipleColumn;
use crate::list_order::{sort_texts, texts_sorted, texts_view};
use crate::model::{language_tag, Item, Language, NetworkItem, ViewString};

verus! {

/// The localized texts loaded for the interface (`json_gettext::JSONGetText`).
#[verifier::external_type_specification]
#[verifier::external_body]
pub struct ExJSONGetText<'a>(JSONGetText<'a>);

/// What the loaded texts hold: for each language key and text name that
/// the texts contain, the text as written by `Display` (a JSON string as
/// itself, any other JSON value as its JSON form).
pub uninterp spec fn gettext_texts(t: JSONGetText<'static>) -> Map<(Seq<char>, Seq<char>), Seq<char>>;

/// The language keys the loaded texts hold.
pub uninterp spec fn gettext_keys(t: JSONGetText<'static>) -> Set<Seq<char>>;

/// The default language key the texts were built with.
pub uninterp spec fn gettext_default_key(t: JSONGetText<'static>) -> Seq<char>;

/// The text named `name` for the language `key`: looked up among that
/// language's texts when the language is loaded, else among the default
/// language's; a name missing there is looked up among the default
/// language's texts.
pub open spec fn lookup_text(t: JSONGetText<'static>, key: Seq<char>, name: Seq<char>) -> Option<Seq<char>> {
    let texts = gettext_texts(t);
    let default = gettext_default_key(t);
    let lang = if gettext_keys(t).contains(key) { key } else { default };
    if texts.contains_key((lang, name)) {
        Some(texts[(lang, name)])
    } else if texts.contains_key((default, name)) {
        Some(texts[(default, name)])
    } else {
        None
    }
}

/// `json_gettext::JSONGetText::get_text_with_key`, written with `Display`:
/// the text `lookup_text` gives for the language `key` and the name `text`
/// (the map of the language when it is loaded, else the default map; a
/// name missing there is taken from the default map), `None` when neither
/// holds it.
#[verifier::external_body]
fn text_with_key(txt: &JSONGetText<'static>, key: &str, text: &str) -> (r: Option<String>)
    ensures
        ({
            let texts = gettext_texts(*txt);
            let default = gettext_default_key(*txt);
            let lang = if gettext_keys(*txt).contains(key@) {
                key@
            } else {
                default
            };
            match r {
                Some(s) => if texts.contains_key((lang, text@)) {
                    s@ == texts[(lang, text@)]
                } else {
                    texts.contains_key((default, text@)) && s@ == texts[(default, text@)]
                },
                None => !texts.contains_key((lang, text@)) && !texts.contains_key((default, text@)),
            }
        }),
{
    txt.get_text_with_key(key, text).map(|v| v.to_string())
}

/// The text found for a key, or the empty text when none was found.
pub fn found_or_empty(found: Option<String>) -> (s: String)
    ensures
        s@ == match found {
            Some(t) => t@,
            None => Seq::empty(),
        },
{
    match found {
        Some(t) => t,
        None => String::new(),
    }
}

impl ViewString {
    /// The text shown in `language`: for a key, its localized text in that
    /// language (empty when there is none); raw text as it is.
    pub fn to_string_txt(&self, txt: &JSONGetText<'static>, language: Language) -> (s: String)
        ensures
            self matches ViewString::Raw(r) ==> s@ == r@,
            self matches ViewString::Key(k) ==> s@ == match lookup_text(*txt, language_tag(language), k@) {
                Some(t) => t,
                None => Seq::empty(),
            },
    {
        match self {
            ViewString::Key(key) => found_or_empty(text_with_key(txt, language.tag(), key.as_str())),
            ViewString::Raw(raw) => raw.clone(),
        }
    }
}

impl Item {
    /// The item's value as shown in `language` (see `ViewString::to_string_txt`).
    pub fn value_txt(&self, txt: &JSONGetText<'static>, language: Language) -> (s: String)
        ensures
            self.value_view() matches ViewString::Raw(r) ==> s@ == r@,
            self.value_view() matches ViewString::Key(k) ==> s@ == match lookup_text(
                *txt,
                language_tag(language),
                k@,
            ) {
                Some(t) => t,
                None => Seq::empty(),
            },
    {
        self.value_ref().to_string_txt(txt, language)
    }
}

impl NetworkItem {
    /// The item's value as shown in `language` (see `ViewString::to_string_txt`).
    pub fn value_txt(&self, txt: &JSONGetText<'static>, language: Language) -> (s: String)
        ensures
            self.value_view() matches ViewString::Raw(r) ==> s@ == r@,
            self.value_view() matches ViewString::Key(k) ==> s@ == match lookup_text(
                *txt,
                language_tag(language),
                k@,
            ) {
                Some(t) => t,
                None => Seq::empty(),
            },
    {
        self.value_ref().to_string_txt(txt, language)
    }
}

/// The text shown for `v` in `language`: raw text as it is, a key as its
/// localized text (empty when there is none).
pub open spec fn shown_text(t: JSONGetText<'static>, language: Language, v: ViewString) -> Seq<char> {
    match v {
        ViewString::Raw(r) => r@,
        ViewString::Key(k) => match lookup_text(t, language_tag(language), k@) {
            Some(x) => x,
            None => Seq::empty(),
        },
    }
}

/// The texts shown for the values of (id, value) pairs, in order.
pub open spec fn shown_values(t: JSONGetText<'static>, language: Language, v: Seq<(String, ViewString)>) -> Seq<Seq<char>> {
    v.map_values(|p: (String, ViewString)| shown_text(t, language, p.1))
}

impl SelectMultipleColumn {
    /// The names of the selected values as shown in `language`, in text
    /// order.
    pub fn shown_names(&self, txt: &JSONGetText<'static>, language: Language) -> (r: Vec<String>)
        ensures
            texts_view(r@).to_multiset() == shown_values(*txt, language, self.selected@).to_multiset(),
            texts_sorted(texts_view(r@)),
    {
        let mut names: Vec<String> = Vec::new();
        let mut i: usize = 0;
        while i < self.selected.len()
            invariant
                i <= self.selected@.len(),
                texts_view(names@) == shown_values(*txt, language, self.selected@.take(i as int)),
            decreases self.selected@.len() - i,
        {
            let ghost before = names@;
            let name = self.selected[i].1.to_string_txt(txt, language);
            assert(name@ == shown_text(*txt, language, self.selected@[i as int].1));
            names.push(name);
            proof {
                assert(texts_view(names@) =~= texts_view(before).push(name@));
                assert(self.selected@.take(i + 1) =~= self.selected@.take(i as int).push(self.selected@[i as int]));
                assert(texts_view(names@) =~= shown_values(*txt, language, self.selected@.take(i + 1)));
            }
            i = i + 1;
        }
        assert(self.selected@.take(self.selected@.len() as int) =~= self.selected@);
        sort_texts(names)
    }
}

} // verus!