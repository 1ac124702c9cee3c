//! The values that users enter into input forms, one kind per input.
use vstd::prelude::*;

use crate::comparison::{Comparison, Value};
use crate::network::{InputHostNetworkGroup, IpRange};
use crate::sorting::{holds, same_members, string_views};
use crate::text::owned;

verus! {

/// A copy of a list of strings.
pub fn copy_strings(v: &[String]) -> (r: Vec<String>)
    ensures
        r@ == v@,
{
    let mut r: Vec<String> = Vec::new();
    let mut i: usize = 0;
    while i < v.len()
        invariant
            0 <= i <= v@.len(),
            r@ == v@.take(i as int),
        decreases v@.len() - i,
    {
        r.push(v[i].clone());
        assert(v@.take(i + 1) =~= v@.take(i as int).push(v@[i as int]));
        i = i + 1;
    }
    assert(v@.take(v@.len() as int) =~= v@);
    r
}

impl IpRange {
    /// A copy of the range.
    pub fn duplicate(&self) -> (r: IpRange)
        ensures
            r == *self,
    {
        IpRange { start: self.start.clone(), end: self.end.clone() }
    }
}

fn copy_ranges(v: &Vec<IpRange>) -> (r: Vec<IpRange>)
    ensures
        r@ == v@,
{
    let mut r: Vec<IpRange> = Vec::new();
    let mut i: usize = 0;
    while i < v.len()
        invariant
            0 <= i <= v@.len(),
            r@ == v@.take(i as int),
        decreases v@.len() - i,
    {
        r.push(v[i].duplicate());
        assert(v@.take(i + 1) =~= v@.take(i as int).push(v@[i as int]));
        i = i + 1;
    }
    assert(v@.take(v@.len() as int) =~= v@);
    r
}

/// Two groups hold the same hosts, networks and ranges, in the same order.
pub open spec fn same_group(a: InputHostNetworkGroup, b: InputHostNetworkGroup) -> bool {
    a.hosts@ == b.hosts@ && a.networks@ == b.networks@ && a.ranges@ == b.ranges@
}

impl InputHostNetworkGroup {
    /// A copy of the group.
    pub fn duplicate(&self) -> (r: InputHostNetworkGroup)
        ensures
            same_group(r, *self),
    {
        InputHostNetworkGroup {
            hosts: copy_strings(self.hosts.as_slice()),
            networks: copy_strings(self.networks.as_slice()),
            ranges: copy_ranges(&self.ranges),
        }
    }
}

/// The text a user typed.
#[derive(Clone, PartialEq)]
pub struct TextItem {
    text: String,
}

impl View for TextItem {
    type V = Seq<char>;

    closed spec fn view(&self) -> Seq<char> {
        self.text@
    }
}

impl TextItem {
    pub fn new(text: String) -> (r: Self)
        ensures
            r@ == text@,
    {
        TextItem { text }
    }

    /// Replaces the text.
    pub fn set(&mut self, text: &str)
        ensures
            final(self)@ == text@,
    {
        self.text = owned(text);
    }

    /// The text.
    pub fn text(&self) -> (r: &String)
        ensures
            r@ == self@,
    {
        &self.text
    }

    pub fn is_empty(&self) -> (b: bool)
        ensures
            b == (self@.len() == 0),
    {
        self.text.as_str().is_empty()
    }

    pub fn clear(&mut self)
        ensures
            final(self)@.len() == 0,
    {
        self.text = String::new();
    }
}

/// The password a user typed.
#[derive(Clone, PartialEq)]
pub struct PasswordItem {
    password: String,
}

impl View for PasswordItem {
    type V = Seq<char>;

    closed spec fn view(&self) -> Seq<char> {
        self.password@
    }
}

impl PasswordItem {
    pub fn new(password: String) -> (r: Self)
        ensures
            r@ == password@,
    {
        PasswordItem { password }
    }

    /// The password.
    pub fn password(&self) -> (r: &String)
        ensures
            r@ == self@,
    {
        &self.password
    }

    pub fn is_empty(&self) -> (b: bool)
        ensures
            b == (self@.len() == 0),
    {
        self.password.as_str().is_empty()
    }

    pub fn clear(&mut self)
        ensures
            final(self)@.len() == 0,
    {
        self.password = String::new();
    }
}

/// The hosts, networks and ranges a user entered.
#[derive(Clone, PartialEq)]
pub struct HostNetworkGroupItem {
    host_network_group: InputHostNetworkGroup,
}

impl View for HostNetworkGroupItem {
    type V = InputHostNetworkGroup;

    closed spec fn view(&self) -> InputHostNetworkGroup {
        self.host_network_group
    }
}

impl HostNetworkGroupItem {
    pub fn new(host_network_group: InputHostNetworkGroup) -> (r: Self)
        ensures
            r@ == host_network_group,
    {
        HostNetworkGroupItem { host_network_group }
    }

    /// A copy of the group.
    pub fn into_inner(&self) -> (r: InputHostNetworkGroup)
        ensures
            same_group(r, self@),
    {
        self.host_network_group.duplicate()
    }

    /// The group.
    pub fn group(&self) -> (r: &InputHostNetworkGroup)
        ensures
            *r == self@,
    {
        &self.host_network_group
    }

    pub fn is_empty(&self) -> (b: bool)
        ensures
            b == (self@.hosts@.len() == 0 && self@.networks@.len() == 0 && self@.ranges@.len() == 0),
    {
        self.host_network_group.is_empty()
    }

    pub fn clear(&mut self)
        ensures
            final(self)@.hosts@.len() == 0 && final(self)@.networks@.len() == 0
                && final(self)@.ranges@.len() == 0,
    {
        self.host_network_group.clear();
    }
}

/// The key of the option a user selected, if any.
#[derive(Clone, PartialEq)]
pub struct SelectSingleItem {
    selected: Option<String>,
}

impl View for SelectSingleItem {
    type V = Option<Seq<char>>;

    closed spec fn view(&self) -> Option<Seq<char>> {
        match self.selected {
            Some(s) => Some(s@),
            None => None,
        }
    }
}

impl SelectSingleItem {
    pub fn new(selected: Option<String>) -> (r: Self)
        ensures
            r@ == (match selected {
                Some(s) => Some(s@),
                None => None,
            }),
    {
        SelectSingleItem { selected }
    }

    /// Selects `selected`.
    pub fn set(&mut self, selected: &str)
        ensures
            final(self)@ == Some(selected@),
    {
        self.selected = Some(owned(selected));
    }

    /// Whether nothing is selected.
    pub fn is_empty(&self) -> (b: bool)
        ensures
            b == (self@ is None),
    {
        self.selected.is_none()
    }

    /// The selected key.
    pub fn selected(&self) -> (r: Option<&str>)
        ensures
            match self@ {
                Some(s) => r matches Some(x) && x@ == s,
                None => r is None,
            },
    {
        match &self.selected {
            Some(s) => Some(s.as_str()),
            None => None,
        }
    }

    /// A copy of the selected key.
    pub fn into_inner(&self) -> (r: Option<String>)
        ensures
            match self@ {
                Some(s) => r matches Some(x) && x@ == s,
                None => r is None,
            },
    {
        match &self.selected {
            Some(s) => Some(s.clone()),
            None => None,
        }
    }

    /// Selects nothing.
    pub fn clear(&mut self)
        ensures
            final(self)@ is None,
    {
        self.selected = None;
    }
}

/// No text occurs twice.
pub open spec fn distinct(v: Seq<Seq<char>>) -> bool {
    forall|i: int, j: int| 0 <= i < j < v.len() ==> v[i] != v[j]
}

/// The strings, each kept once, first occurrence first.
pub fn distinct_strings(v: &[String]) -> (r: Vec<String>)
    ensures
        distinct(string_views(r@)),
        same_members(string_views(r@), string_views(v@)),
{
    let mut r: Vec<String> = Vec::new();
    let mut i: usize = 0;
    while i < v.len()
        invariant
            0 <= i <= v@.len(),
            distinct(string_views(r@)),
            same_members(string_views(r@), string_views(v@.take(i as int))),
        decreases v@.len() - i,
    {
        let ghost prev = string_views(r@);
        let ghost x = v@[i as int]@;
        assert(string_views(v@.take(i + 1)) =~= string_views(v@.take(i as int)).push(x));
        if !holds(&r, &v[i]) {
            r.push(v[i].clone());
            assert(string_views(r@) =~= prev.push(x));
            assert forall|y: Seq<char>| string_views(r@).contains(y) <==> string_views(v@.take(i + 1)).contains(y) by {
                let a = string_views(r@);
                let b = string_views(v@.take(i + 1));
                let c = string_views(v@.take(i as int));
                if a.contains(y) {
                    let k = choose|k: int| 0 <= k < a.len() && a[k] == y;
                    if k == a.len() - 1 {
                        assert(b[i as int] == y);
                    } else {
                        assert(prev[k] == y);
                        assert(prev.contains(y));
                        let j = choose|j: int| 0 <= j < c.len() && c[j] == y;
                        assert(b[j] == y);
                    }
                }
                if b.contains(y) {
                    let j = choose|j: int| 0 <= j < b.len() && b[j] == y;
                    if j == i {
                        assert(a[a.len() - 1] == y);
                    } else {
                        assert(c[j] == y);
                        assert(c.contains(y));
                        let k = choose|k: int| 0 <= k < prev.len() && prev[k] == y;
                        assert(a[k] == y);
                    }
                }
            }
        } else {
            assert forall|y: Seq<char>| string_views(r@).contains(y) <==> string_views(v@.take(i + 1)).contains(y) by {
                let b = string_views(v@.take(i + 1));
                let c = string_views(v@.take(i as int));
                if prev.contains(y) {
                    let j = choose|j: int| 0 <= j < c.len() && c[j] == y;
                    assert(b[j] == y);
                }
                if b.contains(y) {
                    let j = choose|j: int| 0 <= j < b.len() && b[j] == y;
                    if j < i {
                        assert(c[j] == y);
                        assert(c.contains(y));
                    }
                }
            }
        }
        i = i + 1;
    }
    assert(v@.take(v@.len() as int) =~= v@);
    r
}

/// The keys of the options a user selected; each key is held once.
#[derive(Clone, PartialEq)]
pub struct SelectMultipleItem {
    selected_list: Vec<String>,
}

impl View for SelectMultipleItem {
    type V = Seq<Seq<char>>;

    closed spec fn view(&self) -> Seq<Seq<char>> {
        string_views(self.selected_list@)
    }
}

impl SelectMultipleItem {
    /// The selection of the given keys (a key given twice is held once).
    pub fn new(selected_list: Vec<String>) -> (r: Self)
        ensures
            distinct(r@),
            same_members(r@, string_views(selected_list@)),
    {
        SelectMultipleItem { selected_list: distinct_strings(selected_list.as_slice()) }
    }

    /// Selects exactly the given keys.
    pub fn set(&mut self, selected_list: &[String])
        ensures
            distinct(final(self)@),
            same_members(final(self)@, string_views(selected_list@)),
    {
        self.selected_list = distinct_strings(selected_list);
    }

    /// The selected keys.
    pub fn selected_list(&self) -> (r: Vec<String>)
        ensures
            string_views(r@) == self@,
    {
        copy_strings(self.selected_list.as_slice())
    }

    /// A copy of the selected keys.
    pub fn into_inner(&self) -> (r: Vec<String>)
        ensures
            string_views(r@) == self@,
    {
        copy_strings(self.selected_list.as_slice())
    }

    pub fn is_empty(&self) -> (b: bool)
        ensures
            b == (self@.len() == 0),
    {
        self.selected_list.is_empty()
    }

    /// Selects nothing.
    pub fn clear(&mut self)
        ensures
            final(self)@.len() == 0,
    {
        self.selected_list.clear();
    }
}

/// The tags of an item as a user edits them.
#[derive(Clone, PartialEq, Eq)]
pub struct InputTagGroup {
    /// keys from review
    pub old: Vec<String>,
    /// the name of a tag input by users
    pub new: Option<String>,
    /// (the key, a new name)
    pub edit: Option<(String, String)>,
    /// the key that users want to be deleted
    pub delete: Option<String>,
}

/// Two tag groups hold the same keys and edits.
pub open spec fn same_tags(a: InputTagGroup, b: InputTagGroup) -> bool {
    a.old@ == b.old@ && a.new == b.new && a.edit == b.edit && a.delete == b.delete
}

impl InputTagGroup {
    pub open spec fn empty(self) -> bool {
        self.old@.len() == 0 && self.new is None && self.edit is None && self.delete is None
    }

    /// Whether nothing is held.
    pub fn is_empty(&self) -> (b: bool)
        ensures
            b == self.empty(),
    {
        self.old.is_empty() && self.new.is_none() && self.edit.is_none() && self.delete.is_none()
    }

    /// Removes everything.
    pub fn clear(&mut self)
        ensures
            final(self).empty(),
    {
        self.old.clear();
        self.new = None;
        self.edit = None;
        self.delete = None;
    }

    /// A copy of the group.
    pub fn duplicate(&self) -> (r: InputTagGroup)
        ensures
            same_tags(r, *self),
    {
        InputTagGroup {
            old: copy_strings(self.old.as_slice()),
            new: match &self.new {
                Some(s) => Some(s.clone()),
                None => None,
            },
            edit: match &self.edit {
                Some((a, b)) => Some((a.clone(), b.clone())),
                None => None,
            },
            delete: match &self.delete {
                Some(s) => Some(s.clone()),
                None => None,
            },
        }
    }
}

/// A tag as a user edits it.
#[derive(Clone, PartialEq, Eq)]
pub struct InputTag {
    pub new: Option<String>,
    pub edit: Option<(String, String)>,
    pub delete: Option<String>,
}

/// The tags a user entered.
#[derive(Clone, PartialEq)]
pub struct TagItem {
    tag_group: InputTagGroup,
}

impl View for TagItem {
    type V = InputTagGroup;

    closed spec fn view(&self) -> InputTagGroup {
        self.tag_group
    }
}

impl TagItem {
    pub fn new(tag_group: InputTagGroup) -> (r: Self)
        ensures
            r@ == tag_group,
    {
        TagItem { tag_group }
    }

    pub fn tag_group(&self) -> (r: &InputTagGroup)
        ensures
            *r == self@,
    {
        &self.tag_group
    }

    pub fn into_inner(&self) -> (r: InputTagGroup)
        ensures
            same_tags(r, self@),
    {
        self.tag_group.duplicate()
    }

    pub fn is_empty(&self) -> (b: bool)
        ensures
            b == self@.empty(),
    {
        self.tag_group.is_empty()
    }

    pub fn clear(&mut self)
        ensures
            final(self)@.empty(),
    {
        self.tag_group.clear();
    }
}

/// A number a user entered, if any.
#[derive(Clone, PartialEq)]
pub struct Unsigned32Item {
    value: Option<u32>,
}

impl View for Unsigned32Item {
    type V = Option<u32>;

    closed spec fn view(&self) -> Option<u32> {
        self.value
    }
}

impl Unsigned32Item {
    pub fn new(value: Option<u32>) -> (r: Self)
        ensures
            r@ == value,
    {
        Unsigned32Item { value }
    }

    pub fn set(&mut self, value: u32)
        ensures
            final(self)@ == Some(value),
    {
        self.value = Some(value);
    }

    pub fn is_empty(&self) -> (b: bool)
        ensures
            b == (self@ is None),
    {
        self.value.is_none()
    }

    pub fn into_inner(&self) -> (r: Option<u32>)
        ensures
            r == self@,
    {
        self.value
    }

    pub fn clear(&mut self)
        ensures
            final(self)@ is None,
    {
        self.value = None;
    }
}

/// A network interface: its name, address and gateway.
#[derive(Clone, PartialEq, Eq)]
pub struct InputNic {
    pub name: String,
    pub interface: String,
    pub gateway: String,
}

impl InputNic {
    /// A copy of the interface.
    pub fn duplicate(&self) -> (r: InputNic)
        ensures
            r == *self,
    {
        InputNic {
            name: self.name.clone(),
            interface: self.interface.clone(),
            gateway: self.gateway.clone(),
        }
    }
}

/// The network interfaces a user entered.
#[derive(Clone, PartialEq)]
pub struct NicItem {
    nics: Vec<InputNic>,
}

impl View for NicItem {
    type V = Seq<InputNic>;

    closed spec fn view(&self) -> Seq<InputNic> {
        self.nics@
    }
}

impl NicItem {
    pub fn new(nics: Vec<InputNic>) -> (r: Self)
        ensures
            r@ == nics@,
    {
        NicItem { nics }
    }

    pub fn into_inner(&self) -> (r: Vec<InputNic>)
        ensures
            r@ == self@,
    {
        let mut r: Vec<InputNic> = Vec::new();
        let mut i: usize = 0;
        while i < self.nics.len()
            invariant
                0 <= i <= self.nics@.len(),
                r@ == self.nics@.take(i as int),
            decreases self.nics@.len() - i,
        {
            r.push(self.nics[i].duplicate());
            assert(self.nics@.take(i + 1) =~= self.nics@.take(i as int).push(self.nics@[i as int]));
            i = i + 1;
        }
        assert(self.nics@.take(self.nics@.len() as int) =~= self.nics@);
        r
    }

    pub fn is_empty(&self) -> (b: bool)
        ensures
            b == (self@.len() == 0),
    {
        self.nics.is_empty()
    }

    pub fn clear(&mut self)
        ensures
            final(self)@.len() == 0,
    {
        self.nics.clear();
    }
}

/// A file a user loaded: its name and content.
#[derive(Clone, PartialEq)]
pub struct FileItem {
    name: String,
    content: String,
}

impl FileItem {
    pub closed spec fn name_view(self) -> Seq<char> {
        self.name@
    }

    pub closed spec fn content_view(self) -> Seq<char> {
        self.content@
    }

    pub fn new(name: String, content: String) -> (r: Self)
        ensures
            r.name_view() == name@,
            r.content_view() == content@,
    {
        FileItem { name, content }
    }

    /// Whether no file is loaded (the name is empty).
    pub fn is_empty(&self) -> (b: bool)
        ensures
            b == (self.name_view().len() == 0),
    {
        self.name.as_str().is_empty()
    }

    pub fn name(&self) -> (r: &str)
        ensures
            r@ == self.name_view(),
    {
        self.name.as_str()
    }

    pub fn content(&self) -> (r: &str)
        ensures
            r@ == self.content_view(),
    {
        self.content.as_str()
    }

    pub fn clear(&mut self)
        ensures
            final(self).name_view().len() == 0,
            final(self).content_view().len() == 0,
    {
        self.name = String::new();
        self.content = String::new();
    }
}

/// The keys selected in each of a row of select boxes.
#[derive(Clone, PartialEq)]
pub struct VecSelectItem {
    list: Vec<Vec<String>>,
}

pub open spec fn nested_views(v: Seq<Vec<String>>) -> Seq<Seq<Seq<char>>> {
    v.map_values(|x: Vec<String>| string_views(x@))
}

fn copy_nested(v: &[Vec<String>]) -> (r: Vec<Vec<String>>)
    ensures
        nested_views(r@) == nested_views(v@),
{
    let mut r: Vec<Vec<String>> = Vec::new();
    let mut i: usize = 0;
    while i < v.len()
        invariant
            0 <= i <= v@.len(),
            nested_views(r@) == nested_views(v@.take(i as int)),
        decreases v@.len() - i,
    {
        let ghost prev = r@;
        r.push(copy_strings(v[i].as_slice()));
        assert(nested_views(r@) =~= nested_views(prev).push(string_views(v@[i as int]@)));
        assert(nested_views(v@.take(i + 1)) =~= nested_views(v@.take(i as int)).push(string_views(v@[i as int]@)));
        i = i + 1;
    }
    assert(v@.take(v@.len() as int) =~= v@);
    r
}

impl View for VecSelectItem {
    type V = Seq<Seq<Seq<char>>>;

    closed spec fn view(&self) -> Seq<Seq<Seq<char>>> {
        nested_views(self.list@)
    }
}

impl VecSelectItem {
    pub fn new(list: Vec<Vec<String>>) -> (r: Self)
        ensures
            r@ == nested_views(list@),
    {
        VecSelectItem { list }
    }

    /// Replaces the selections.
    pub fn set(&mut self, preset: &[Vec<String>])
        ensures
            final(self)@ == nested_views(preset@),
    {
        self.list = copy_nested(preset);
    }

    pub fn into_inner(&self) -> (r: Vec<Vec<String>>)
        ensures
            nested_views(r@) == self@,
    {
        copy_nested(self.list.as_slice())
    }

    pub fn is_empty(&self) -> (b: bool)
        ensures
            b == (self@.len() == 0),
    {
        self.list.is_empty()
    }

    pub fn clear(&mut self)
        ensures
            final(self)@.len() == 0,
    {
        self.list.clear();
    }
}

impl Comparison {
    /// A copy of the comparison.
    pub fn duplicate(&self) -> (r: Comparison)
        ensures
            r == *self,
    {
        match self {
            Comparison::Less(v) => Comparison::Less(v.clone()),
            Comparison::Equal(v) => Comparison::Equal(v.clone()),
            Comparison::Greater(v) => Comparison::Greater(v.clone()),
            Comparison::LessOrEqual(v) => Comparison::LessOrEqual(v.clone()),
            Comparison::GreaterOrEqual(v) => Comparison::GreaterOrEqual(v.clone()),
            Comparison::Contain(v) => Comparison::Contain(v.clone()),
            Comparison::OpenRange(a, b) => Comparison::OpenRange(a.clone(), b.clone()),
            Comparison::CloseRange(a, b) => Comparison::CloseRange(a.clone(), b.clone()),
            Comparison::LeftOpenRange(a, b) => Comparison::LeftOpenRange(a.clone(), b.clone()),
            Comparison::RightOpenRange(a, b) => Comparison::RightOpenRange(a.clone(), b.clone()),
            Comparison::NotEqual(v) => Comparison::NotEqual(v.clone()),
            Comparison::NotContain(v) => Comparison::NotContain(v.clone()),
            Comparison::NotOpenRange(a, b) => Comparison::NotOpenRange(a.clone(), b.clone()),
            Comparison::NotCloseRange(a, b) => Comparison::NotCloseRange(a.clone(), b.clone()),
            Comparison::NotLeftOpenRange(a, b) => Comparison::NotLeftOpenRange(
                a.clone(),
                b.clone(),
            ),
            Comparison::NotRightOpenRange(a, b) => Comparison::NotRightOpenRange(
                a.clone(),
                b.clone(),
            ),
        }
    }
}

/// The comparison a user entered, if any.
#[derive(PartialEq)]
pub struct ComparisonItem {
    comparison: Option<Comparison>,
}

impl View for ComparisonItem {
    type V = Option<Comparison>;

    closed spec fn view(&self) -> Option<Comparison> {
        self.comparison
    }
}

impl ComparisonItem {
    pub fn new(comparison: Option<Comparison>) -> (r: Self)
        ensures
            r@ == comparison,
    {
        ComparisonItem { comparison }
    }

    pub fn is_empty(&self) -> (b: bool)
        ensures
            b == (self@ is None),
    {
        self.comparison.is_none()
    }

    pub fn into_inner(&self) -> (r: Option<Comparison>)
        ensures
            r == self@,
    {
        match &self.comparison {
            Some(c) => Some(c.duplicate()),
            None => None,
        }
    }

    pub fn clear(&mut self)
        ensures
            final(self)@ is None,
    {
        self.comparison = None;
    }
}

} // verus!
