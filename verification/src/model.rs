//! Values shared by the components: display strings, selectable items,
//! actions, selections and languages.
use vstd::prelude::*;

use crate::network::NetworkGroup;
use crate::text::owned;

verus! {

/// Actions available in context menus and action buttons.
#[derive(Clone, Copy, Debug, PartialEq, Eq)]
pub enum MoreAction {
    /// Edit the selected item
    Edit,
    /// Delete the selected item
    Delete,
}

/// Binary state actions for toggleable components.
#[derive(Clone, Copy, Debug, PartialEq, Eq)]
pub enum OnOffAction {
    /// Enable or turn on the component
    On,
    /// Disable or turn off the component
    Off,
}

/// A string value that can be either the key of a localized text or raw text.
#[derive(Clone, PartialEq, Eq, PartialOrd, Ord)]
pub enum ViewString {
    /// A key to be looked up in the language files
    Key(String),
    /// Raw text to be displayed directly
    Raw(String),
}

impl ViewString {
    /// The key or the raw text.
    pub open spec fn text(self) -> Seq<char> {
        match self {
            ViewString::Key(k) => k@,
            ViewString::Raw(t) => t@,
        }
    }

    /// The key or the raw text, as `Display` writes it.
    pub fn to_string(&self) -> (s: String)
        ensures
            s@ == self.text(),
    {
        match self {
            ViewString::Key(key) => key.clone(),
            ViewString::Raw(txt) => txt.clone(),
        }
    }

    /// A copy.
    pub fn duplicate(&self) -> (r: ViewString)
        ensures
            r.text() == self.text(),
            (r is Key) == (self is Key),
    {
        match self {
            ViewString::Key(key) => ViewString::Key(key.clone()),
            ViewString::Raw(txt) => ViewString::Raw(txt.clone()),
        }
    }
}

/// A generic item with an identifier and display value.
#[derive(Clone, PartialEq, Eq, PartialOrd, Ord)]
pub struct Item {
    id: String,
    value: ViewString,
}

impl Item {
    pub closed spec fn id_view(self) -> Seq<char> {
        self.id@
    }

    pub closed spec fn value_view(self) -> ViewString {
        self.value
    }

    /// Creates a new item with the specified ID and value.
    pub fn new(id: String, value: ViewString) -> (r: Self)
        ensures
            r.id_view() == id@,
            r.value_view() == value,
    {
        Item { id, value }
    }

    /// The item's unique identifier.
    pub fn id(&self) -> (r: &String)
        ensures
            r@ == self.id_view(),
    {
        &self.id
    }

    /// The item's display value as a string (the key or the raw text).
    pub fn value(&self) -> (s: String)
        ensures
            s@ == self.value_view().text(),
    {
        self.value.to_string()
    }

    /// The item's display value.
    pub fn value_ref(&self) -> (v: &ViewString)
        ensures
            *v == self.value_view(),
    {
        &self.value
    }
}

/// A selectable network: identifier, display value and its networks.
#[derive(Clone, PartialEq, Eq)]
pub struct NetworkItem {
    id: String,
    value: ViewString,
    networks: Option<NetworkGroup>,
}

impl NetworkItem {
    pub closed spec fn id_view(self) -> Seq<char> {
        self.id@
    }

    pub closed spec fn value_view(self) -> ViewString {
        self.value
    }

    pub closed spec fn networks_view(self) -> Option<NetworkGroup> {
        self.networks
    }

    pub fn new(id: String, value: ViewString, networks: Option<NetworkGroup>) -> (r: Self)
        ensures
            r.id_view() == id@,
            r.value_view() == value,
            r.networks_view() == networks,
    {
        NetworkItem { id, value, networks }
    }

    pub fn id(&self) -> (r: &String)
        ensures
            r@ == self.id_view(),
    {
        &self.id
    }

    pub fn value(&self) -> (s: String)
        ensures
            s@ == self.value_view().text(),
    {
        self.value.to_string()
    }

    /// The item's display value.
    pub fn value_ref(&self) -> (v: &ViewString)
        ensures
            *v == self.value_view(),
    {
        &self.value
    }

    pub fn networks(&self) -> (r: Option<&NetworkGroup>)
        ensures
            match self.networks_view() {
                Some(g) => r matches Some(x) && *x == g,
                None => r is None,
            },
    {
        self.networks.as_ref()
    }
}

/// The direction of a network endpoint.
#[derive(Clone, Copy, PartialEq, Eq, Debug)]
pub enum EndpointKind {
    /// Traffic originating from this endpoint
    Source,
    /// Traffic destined for this endpoint
    Destination,
    /// Traffic in both directions (source and destination)
    Both,
}

impl Default for EndpointKind {
    fn default() -> (k: Self)
        ensures
            k == EndpointKind::Both,
    {
        EndpointKind::Both
    }
}

/// Additional information associated with a selection.
#[derive(Clone, Copy, PartialEq, Eq, Debug)]
pub enum SelectionExtraInfo {
    /// Network selection with endpoint direction information
    Network(EndpointKind),
    /// Basic selection without additional context
    Basic,
}

/// The selections of a selection component: the predefined options (when
/// they are loaded) and the custom ones, each by key with its state; a state
/// of `None` is an option that is not selected.
#[derive(Clone, PartialEq, Eq, Debug)]
pub struct ComplexSelection {
    /// Predefined selections available to the user
    pub predefined: Option<Vec<(String, Option<SelectionExtraInfo>)>>,
    /// Custom selections created by the user
    pub custom: Vec<(String, Option<SelectionExtraInfo>)>,
}

/// How many of the options are selected.
pub open spec fn selected_count(v: Seq<(String, Option<SelectionExtraInfo>)>) -> nat
    decreases v.len(),
{
    if v.len() == 0 {
        0
    } else {
        selected_count(v.drop_last()) + if v.last().1 is Some {
            1nat
        } else {
            0nat
        }
    }
}

proof fn lemma_selected_count_bound(v: Seq<(String, Option<SelectionExtraInfo>)>)
    ensures
        selected_count(v) <= v.len(),
    decreases v.len(),
{
    if v.len() > 0 {
        lemma_selected_count_bound(v.drop_last());
    }
}

fn count_selected(v: &Vec<(String, Option<SelectionExtraInfo>)>) -> (n: usize)
    ensures
        n == selected_count(v@),
{
    let mut n: usize = 0;
    let mut i: usize = 0;
    while i < v.len()
        invariant
            0 <= i <= v@.len(),
            n == selected_count(v@.take(i as int)),
        decreases v@.len() - i,
    {
        assert(v@.take(i + 1).drop_last() =~= v@.take(i as int));
        proof {
            lemma_selected_count_bound(v@.take(i as int));
        }
        if v[i].1.is_some() {
            n = n + 1;
        }
        i = i + 1;
    }
    assert(v@.take(v@.len() as int) =~= v@);
    n
}

impl ComplexSelection {
    /// The number of selected predefined options (`None` when they are not
    /// loaded) and of selected custom options.
    pub fn len(&self) -> (r: (Option<usize>, usize))
        ensures
            r.1 == selected_count(self.custom@),
            match self.predefined {
                Some(p) => r.0 is Some && r.0->0 == selected_count(p@),
                None => r.0 is None,
            },
    {
        let custom = count_selected(&self.custom);
        let predefined = match &self.predefined {
            Some(p) => Some(count_selected(p)),
            None => None,
        };
        (predefined, custom)
    }

    /// Whether the predefined options are loaded and nothing is selected.
    pub fn is_empty(&self) -> (b: bool)
        ensures
            b == (selected_count(self.custom@) == 0 && match self.predefined {
                Some(p) => selected_count(p@) == 0,
                None => false,
            }),
    {
        let (p, c) = self.len();
        proof {
            if self.predefined is Some {
                let q = self.predefined->0;
                lemma_selected_count_bound(q@);
            }
        }
        match p {
            Some(0) => c == 0,
            _ => false,
        }
    }
}

/// Supported languages for the UI.
#[derive(Clone, Copy, PartialEq, Eq)]
pub enum Language {
    /// English language (en-US)
    English,
    /// Korean language (ko-KR)
    Korean,
}

impl Language {
    /// The two-letter language code ("en" or "ko").
    pub fn language_subtag(self) -> (s: &'static str)
        ensures
            s@ == (match self {
                Language::English => "en"@,
                Language::Korean => "ko"@,
            }),
    {
        match self {
            Language::English => "en",
            Language::Korean => "ko",
        }
    }

    /// The full language tag including region ("en-US" or "ko-KR").
    pub fn tag(self) -> (s: &'static str)
        ensures
            s@ == language_tag(self),
    {
        match self {
            Language::English => "en-US",
            Language::Korean => "ko-KR",
        }
    }

    /// The language of a language tag: Korean for a tag that starts with `ko`,
    /// English otherwise.
    pub fn from_tag(tag: &str) -> (l: Language)
        ensures
            l == (if tag@.len() >= 2 && tag@[0] == 'k' && tag@[1] == 'o' {
                Language::Korean
            } else {
                Language::English
            }),
    {
        let v = crate::text::chars_of(tag);
        if v.len() >= 2 && v[0] == 'k' && v[1] == 'o' {
            Language::Korean
        } else {
            Language::English
        }
    }

    /// The tag stored for the language.
    pub fn to_tag_string(self) -> (s: String)
        ensures
            s@ == language_tag(self),
    {
        owned(self.tag())
    }
}

pub open spec fn language_tag(l: Language) -> Seq<char> {
    match l {
        Language::English => "en-US"@,
        Language::Korean => "ko-KR"@,
    }
}

/// Reading back the tag of a language gives the language.
pub proof fn law_language_tag_roundtrip(l: Language)
    ensures
        (if language_tag(l).len() >= 2 && language_tag(l)[0] == 'k' && language_tag(l)[1] == 'o' {
            Language::Korean
        } else {
            Language::English
        }) == l,
{
    reveal_strlit("en-US");
    reveal_strlit("ko-KR");
}

} // verus!
