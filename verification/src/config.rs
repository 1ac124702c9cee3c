//! How each kind of input field is configured, and the normalisation of the
//! file extensions a file field accepts.
use vstd::prelude::*;

use crate::model::ViewString;
use crate::text::{chars_of, string_from_chars};

verus! {

/// What every input field has: a title, a notice and whether it is required.
#[derive(Clone, PartialEq)]
pub struct Essential {
    pub title: String,
    pub notice: &'static str,
    pub required: bool,
}

impl Essential {
    /// The title.
    pub fn title(&self) -> (t: &str)
        ensures
            t@ == self.title@,
    {
        self.title.as_str()
    }
}

/// Where the children of a checkbox are laid out.
#[derive(Clone, Copy, PartialEq, Eq)]
pub enum ChildrenPosition {
    NextLine,
    Right,
}

/// Which entries a host/network field accepts.
#[derive(Clone, Copy, PartialEq, Eq)]
pub enum HostNetworkKind {
    HostOnly,
    All,
}

#[derive(Clone, PartialEq)]
pub struct TextConfig {
    pub ess: Essential,
    pub length: Option<usize>,
    pub width: Option<u32>,
    pub preset: Option<String>,
    pub unique: bool,
    pub immutable: bool,
}

#[derive(Clone, PartialEq)]
pub struct DomainNameConfig {
    pub ess: Essential,
    pub width: Option<u32>,
    pub preset: Option<String>,
}

#[derive(Clone, PartialEq)]
pub struct PasswordConfig {
    pub ess: Essential,
    pub length: Option<usize>,
    pub width: Option<u32>,
}

#[derive(Clone, PartialEq)]
pub struct HostNetworkGroupConfig {
    pub ess: Essential,
    pub kind: HostNetworkKind,
    /// The number of entries the field takes.
    pub num: Option<usize>,
    pub width: Option<u32>,
    pub length: Option<usize>,
}

#[derive(Clone, PartialEq)]
pub struct SelectSingleConfig {
    pub ess: Essential,
    /// The options: (key, display string).
    pub options: Vec<(String, ViewString)>,
    pub width: Option<u32>,
    pub preset: Option<String>,
}

#[derive(Clone, PartialEq)]
pub struct SelectMultipleConfig {
    pub ess: Essential,
    /// The options: (key, display string).
    pub options: Option<Vec<(String, ViewString)>>,
    /// For a list of network interfaces, the index of the interfaces in the data.
    pub nic_index: Option<usize>,
    pub width: Option<u32>,
    /// Whether all options are selected by default.
    pub all: bool,
    pub preset: Option<Vec<String>>,
}

/// A tag field; it stands at the top level of a form only.
#[derive(Clone, PartialEq)]
pub struct TagConfig {
    pub ess: Essential,
    /// The tags: (key, name), each key once.
    pub name_map: Vec<(String, String)>,
}

#[derive(Clone, PartialEq)]
pub struct Unsigned32Config {
    pub ess: Essential,
    pub min: u32,
    pub max: u32,
    pub width: Option<u32>,
    pub preset: Option<u32>,
}

#[derive(Clone, PartialEq)]
pub struct Unsigned8Config {
    pub ess: Essential,
    pub min: u8,
    pub max: u8,
    pub width: Option<u8>,
    pub preset: Option<u8>,
}

#[derive(Clone, PartialEq)]
pub struct NicConfig {
    pub ess: Essential,
}

#[derive(Clone, PartialEq)]
pub struct FileConfig {
    pub ess: Essential,
    /// The extensions a file may have, such as `.txt`; see `validate_extensions`.
    pub allowed_extensions: Vec<String>,
}

#[derive(Clone, PartialEq)]
pub struct ComparisonConfig {
    pub ess: Essential,
}

#[derive(Clone, PartialEq)]
pub struct VecSelectConfig {
    pub ess: Essential,
    pub items_ess_list: Vec<Essential>,
    /// Whether the last select box takes several options.
    pub last: bool,
    /// For each select box, the options offered for each selection of the
    /// boxes before it: (selected keys, options), each selection once.
    pub map_list: Vec<Vec<(Vec<String>, Vec<(String, ViewString)>)>>,
    pub full_width: Option<u32>,
    pub widths: Vec<u32>,
    pub max_widths: Vec<u32>,
    pub max_heights: Vec<u32>,
    pub preset: Option<Vec<Vec<String>>>,
}

/// Whether the form is adding a new second-layer item or editing one.
#[derive(Clone, PartialEq, Eq)]
pub enum InputSecondId {
    Add,
    Edit(String),
}

/// Unicode's `Alphabetic` or `Numeric` property of a character, as
/// `char::is_alphanumeric` tells it.
pub uninterp spec fn unicode_alphanumeric(c: char) -> bool;

/// std's `char::is_alphanumeric`: the character is alphabetic or numeric in
/// the Unicode tables. Its result is the named property; among the ASCII
/// characters exactly the letters and digits have it (no other ASCII
/// character is alphabetic or numeric in Unicode's tables).
#[verifier::external_body]
fn char_is_alphanumeric(c: char) -> (b: bool)
    ensures
        b == unicode_alphanumeric(c),
        ('a' <= c <= 'z' || 'A' <= c <= 'Z' || '0' <= c <= '9') ==> b,
        c <= '\x7f' ==> (b <==> ('a' <= c <= 'z' || 'A' <= c <= 'Z' || '0' <= c <= '9')),
{
    c.is_alphanumeric()
}

/// An extension is accepted when it holds no space and only alphanumeric
/// characters and dots.
pub open spec fn extension_accepted(e: Seq<char>) -> bool {
    &&& !e.contains(' ')
    &&& forall|i: int| 0 <= i < e.len() ==> unicode_alphanumeric(#[trigger] e[i]) || e[i] == '.'
}

/// An accepted extension with a leading dot added when it lacks one.
pub open spec fn dotted(e: Seq<char>) -> Seq<char> {
    if e.len() > 0 && e[0] == '.' {
        e
    } else {
        seq!['.'] + e
    }
}

/// The accepted extensions of the list, dotted, in order.
pub open spec fn validated_extensions(v: Seq<Seq<char>>) -> Seq<Seq<char>>
    decreases v.len(),
{
    if v.len() == 0 {
        Seq::empty()
    } else {
        let rest = validated_extensions(v.drop_last());
        if extension_accepted(v.last()) {
            rest.push(dotted(v.last()))
        } else {
            rest
        }
    }
}

fn is_accepted_extension(e: &[char]) -> (b: bool)
    ensures
        b == extension_accepted(e@),
{
    let mut i: usize = 0;
    while i < e.len()
        invariant
            0 <= i <= e@.len(),
            forall|k: int| 0 <= k < i ==> e@[k] != ' ',
        decreases e@.len() - i,
    {
        if e[i] == ' ' {
            assert(e@[i as int] == ' ');
            return false;
        }
        i = i + 1;
    }
    let mut j: usize = 0;
    while j < e.len()
        invariant
            0 <= j <= e@.len(),
            !e@.contains(' '),
            forall|k: int| 0 <= k < j ==> unicode_alphanumeric(#[trigger] e@[k]) || e@[k] == '.',
        decreases e@.len() - j,
    {
        if !char_is_alphanumeric(e[j]) && e[j] != '.' {
            return false;
        }
        j = j + 1;
    }
    true
}

/// Keeps the extensions with no space and only alphanumeric characters and
/// dots, and puts a dot before each that does not start with one.
pub fn validate_extensions(extensions: &[String]) -> (r: Vec<String>)
    ensures
        r@.map_values(|s: String| s@) == validated_extensions(extensions@.map_values(|s: String| s@)),
{
    let ghost views = extensions@.map_values(|s: String| s@);
    let mut r: Vec<String> = Vec::new();
    let mut i: usize = 0;
    while i < extensions.len()
        invariant
            0 <= i <= extensions@.len(),
            views == extensions@.map_values(|s: String| s@),
            r@.map_values(|s: String| s@) == validated_extensions(views.take(i as int)),
        decreases extensions@.len() - i,
    {
        let chars = chars_of(extensions[i].as_str());
        proof {
            assert(views.take(i + 1).drop_last() =~= views.take(i as int));
            assert(views.take(i + 1).last() == chars@);
        }
        if is_accepted_extension(chars.as_slice()) {
            let text = if chars.len() > 0 && chars[0] == '.' {
                extensions[i].clone()
            } else {
                let mut d: Vec<char> = Vec::new();
                d.push('.');
                let mut k: usize = 0;
                while k < chars.len()
                    invariant
                        0 <= k <= chars@.len(),
                        d@ == seq!['.'] + chars@.take(k as int),
                    decreases chars@.len() - k,
                {
                    d.push(chars[k]);
                    proof {
                        assert(chars@.take(k + 1) =~= chars@.take(k as int).push(chars@[k as int]));
                        assert(d@ =~= seq!['.'] + chars@.take(k + 1));
                    }
                    k = k + 1;
                }
                proof {
                    assert(chars@.take(chars@.len() as int) =~= chars@);
                }
                string_from_chars(d.as_slice())
            };
            let ghost before = r@;
            r.push(text);
            proof {
                assert(r@.map_values(|s: String| s@) =~= before.map_values(|s: String| s@).push(
                    dotted(chars@),
                ));
            }
        } else {
        }
        i = i + 1;
    }
    proof {
        assert(views.take(extensions@.len() as int) =~= views);
    }
    r
}



proof fn lemma_dotted_accepted(e: Seq<char>)
    requires
        extension_accepted(e),
    ensures
        extension_accepted(dotted(e)),
        dotted(dotted(e)) == dotted(e),
{
    let d = dotted(e);
    if !(e.len() > 0 && e[0] == '.') {
        assert(d =~= seq!['.'] + e);
        assert forall|i: int| 0 <= i < d.len() implies unicode_alphanumeric(#[trigger] d[i]) || d[i] == '.' by {
            if i > 0 {
                assert(d[i] == e[i - 1]);
            }
        }
        if d.contains(' ') {
            let i = choose|i: int| 0 <= i < d.len() && d[i] == ' ';
            assert(i > 0);
            assert(e[i - 1] == ' ');
        }
    }
}

/// Validating extensions twice gives what validating once gives: every
/// extension kept is accepted again and already dotted.
pub proof fn law_validate_extensions_idempotent(v: Seq<Seq<char>>)
    ensures
        validated_extensions(validated_extensions(v)) == validated_extensions(v),
    decreases v.len(),
{
    if v.len() > 0 {
        law_validate_extensions_idempotent(v.drop_last());
        let rest = validated_extensions(v.drop_last());
        if extension_accepted(v.last()) {
            lemma_dotted_accepted(v.last());
            let w = rest.push(dotted(v.last()));
            assert(w.drop_last() =~= rest);
            assert(w.last() == dotted(v.last()));
        }
    }
}

} // verus!
