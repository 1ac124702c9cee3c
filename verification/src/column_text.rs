//! The plain text of each kind of list column, as sorting and searching a
//! list read it: keys stand for localized texts, lists are joined by commas.
use vstd::prelude::*;

use crate::items::InputNic;
use crate::list::{
    DomainNameColumn, FileColumn, HostNetworkGroupColumn, NicColumn, SelectMultipleColumn,
    SelectSingleColumn, TagColumn, TextColumn, Unsigned32Column, Unsigned8Column, VecSelectColumn,
};
use crate::config::TagConfig;
use crate::list_order::{sort_texts, texts_sorted, texts_view};
use crate::model::ViewString;
use crate::sorting::string_views;
use crate::text::{chars_of, decimal, decimal_string, string_from_chars};

verus! {

/// The texts joined, `sep` between each two of them.
pub open spec fn joined(v: Seq<Seq<char>>, sep: Seq<char>) -> Seq<char>
    decreases v.len(),
{
    if v.len() == 0 {
        Seq::empty()
    } else if v.len() == 1 {
        v[0]
    } else {
        joined(v.drop_last(), sep) + sep + v.last()
    }
}

fn push_chars(v: &mut Vec<char>, s: &str)
    ensures
        final(v)@ == old(v)@ + s@,
{
    let c = chars_of(s);
    let ghost start = v@;
    let mut i: usize = 0;
    while i < c.len()
        invariant
            0 <= i <= c@.len(),
            c@ == s@,
            v@ == start + c@.take(i as int),
        decreases c@.len() - i,
    {
        v.push(c[i]);
        assert(c@.take(i + 1) =~= c@.take(i as int).push(c@[i as int]));
        i = i + 1;
    }
    assert(c@.take(c@.len() as int) =~= c@);
}

/// The strings joined by `sep` (as `join` of `itertools` or of slices).
pub fn join_strings(v: &Vec<String>, sep: &str) -> (r: String)
    ensures
        r@ == joined(string_views(v@), sep@),
{
    let ghost views = string_views(v@);
    let mut out: Vec<char> = Vec::new();
    let mut i: usize = 0;
    while i < v.len()
        invariant
            0 <= i <= v@.len(),
            views == string_views(v@),
            out@ == joined(views.take(i as int), sep@),
        decreases v@.len() - i,
    {
        proof {
            assert(views.take(i + 1).drop_last() =~= views.take(i as int));
            assert(views.take(i + 1).last() == v@[i as int]@);
        }
        if i > 0 {
            push_chars(&mut out, sep);
        }
        push_chars(&mut out, v[i].as_str());
        proof {
            if i == 0 {
                assert(views.take(1)[0] == v@[0]@);
            }
        }
        i = i + 1;
    }
    proof {
        assert(views.take(v@.len() as int) =~= views);
    }
    string_from_chars(out.as_slice())
}

/// The text of a value of a single select box.
pub open spec fn view_texts(v: Seq<(String, ViewString)>) -> Seq<Seq<char>> {
    v.map_values(|p: (String, ViewString)| p.1.text())
}

fn value_texts(v: &Vec<(String, ViewString)>) -> (r: Vec<String>)
    ensures
        string_views(r@) == view_texts(v@),
{
    let mut r: Vec<String> = Vec::new();
    let mut i: usize = 0;
    while i < v.len()
        invariant
            0 <= i <= v@.len(),
            string_views(r@) == view_texts(v@.take(i as int)),
        decreases v@.len() - i,
    {
        let t = v[i].1.to_string();
        let ghost before = r@;
        r.push(t);
        proof {
            assert(string_views(r@) =~= string_views(before).push(v@[i as int].1.text()));
            assert(view_texts(v@.take(i + 1)) =~= view_texts(v@.take(i as int)).push(
                v@[i as int].1.text(),
            ));
        }
        i = i + 1;
    }
    proof {
        assert(v@.take(v@.len() as int) =~= v@);
    }
    r
}

/// The text of a network interface: `{name: interface(interface) gateway(gateway)} `.
pub open spec fn nic_text(n: InputNic) -> Seq<char> {
    seq!['{'] + n.name@ + ": "@ + n.interface@ + "(interface) "@ + n.gateway@ + "(gateway)} "@
}

/// The texts of the interfaces, one after the other.
pub open spec fn nics_text(v: Seq<InputNic>) -> Seq<char>
    decreases v.len(),
{
    if v.len() == 0 {
        Seq::empty()
    } else {
        nics_text(v.drop_last()) + nic_text(v.last())
    }
}

impl TextColumn {
    /// The column's text (the key of a localized text).
    pub fn to_string(&self) -> (s: String)
        ensures
            s@ == self.text.text(),
    {
        self.text.to_string()
    }
}

impl DomainNameColumn {
    /// The domain; what is displayed instead does not count.
    pub fn to_string(&self) -> (s: String)
        ensures
            s@ == self.domain.text(),
    {
        self.domain.to_string()
    }
}

impl HostNetworkGroupColumn {
    /// The hosts and networks joined by commas.
    pub fn to_string(&self) -> (s: String)
        ensures
            s@ == joined(string_views(self.host_network_group@), ","@),
    {
        join_strings(&self.host_network_group, ",")
    }
}

impl SelectSingleColumn {
    /// The text of the selected value; empty when nothing is selected.
    pub fn to_string(&self) -> (s: String)
        ensures
            s@ == match self.selected {
                Some((_, v)) => v.text(),
                None => Seq::empty(),
            },
    {
        match &self.selected {
            Some((_, v)) => v.to_string(),
            None => String::new(),
        }
    }
}

impl SelectMultipleColumn {
    /// The texts of the selected values joined by commas, in the order held.
    pub fn to_string(&self) -> (s: String)
        ensures
            s@ == joined(view_texts(self.selected@), ","@),
    {
        let t = value_texts(&self.selected);
        join_strings(&t, ",")
    }
}

/// The name the tag `key` has in `map` (the last entry for the key).
pub open spec fn tag_name(map: Seq<(String, String)>, key: Seq<char>) -> Option<Seq<char>>
    decreases map.len(),
{
    if map.len() == 0 {
        None
    } else if map.last().0@ == key {
        Some(map.last().1@)
    } else {
        tag_name(map.drop_last(), key)
    }
}

/// The names of the tags that have one, in the order of the tags.
pub open spec fn named_tags(tags: Seq<String>, map: Seq<(String, String)>) -> Seq<Seq<char>>
    decreases tags.len(),
{
    if tags.len() == 0 {
        Seq::empty()
    } else {
        let p = named_tags(tags.drop_last(), map);
        match tag_name(map, tags.last()@) {
            Some(n) => p.push(n),
            None => p,
        }
    }
}

fn find_tag_name(map: &Vec<(String, String)>, key: &String) -> (r: Option<String>)
    ensures
        match r {
            Some(n) => tag_name(map@, key@) == Some(n@),
            None => tag_name(map@, key@) is None,
        },
{
    let mut found: Option<String> = None;
    let mut i: usize = 0;
    while i < map.len()
        invariant
            i <= map@.len(),
            match found {
                Some(n) => tag_name(map@.take(i as int), key@) == Some(n@),
                None => tag_name(map@.take(i as int), key@) is None,
            },
        decreases map@.len() - i,
    {
        proof {
            assert(map@.take(i + 1).drop_last() =~= map@.take(i as int));
        }
        if map[i].0 == *key {
            found = Some(map[i].1.clone());
        }
        i = i + 1;
    }
    assert(map@.take(map@.len() as int) =~= map@);
    found
}

impl TagColumn {
    /// The names of the column's tags as the tag field names them, in text
    /// order; a tag without a name is left out.
    pub fn shown_names(&self, config: &TagConfig) -> (r: Vec<String>)
        ensures
            texts_view(r@).to_multiset() == named_tags(self.tags@, config.name_map@).to_multiset(),
            texts_sorted(texts_view(r@)),
    {
        let mut names: Vec<String> = Vec::new();
        let mut i: usize = 0;
        while i < self.tags.len()
            invariant
                i <= self.tags@.len(),
                texts_view(names@) == named_tags(self.tags@.take(i as int), config.name_map@),
            decreases self.tags@.len() - i,
        {
            proof {
                assert(self.tags@.take(i + 1).drop_last() =~= self.tags@.take(i as int));
            }
            let ghost before = names@;
            match find_tag_name(&config.name_map, &self.tags[i]) {
                Some(n) => {
                    names.push(n);
                    assert(texts_view(names@) =~= texts_view(before).push(names@.last()@));
                },
                None => {},
            }
            i = i + 1;
        }
        assert(self.tags@.take(self.tags@.len() as int) =~= self.tags@);
        sort_texts(names)
    }

    /// The tags joined by commas, in the order held.
    pub fn to_string(&self) -> (s: String)
        ensures
            s@ == joined(string_views(self.tags@), ","@),
    {
        join_strings(&self.tags, ",")
    }
}

impl Unsigned32Column {
    /// The number in decimal; empty when there is none.
    pub fn to_string(&self) -> (s: String)
        ensures
            s@ == match self.value {
                Some(v) => decimal(v as nat),
                None => Seq::empty(),
            },
    {
        match self.value {
            Some(v) => decimal_string(v),
            None => String::new(),
        }
    }
}

impl Unsigned8Column {
    /// The number in decimal; empty when there is none.
    pub fn to_string(&self) -> (s: String)
        ensures
            s@ == match self.value {
                Some(v) => decimal(v as nat),
                None => Seq::empty(),
            },
    {
        match self.value {
            Some(v) => decimal_string(v as u32),
            None => String::new(),
        }
    }
}

impl NicColumn {
    /// Each interface as `{name: interface(interface) gateway(gateway)} `.
    pub fn to_string(&self) -> (s: String)
        ensures
            s@ == nics_text(self.nics@),
    {
        let mut out: Vec<char> = Vec::new();
        let mut i: usize = 0;
        while i < self.nics.len()
            invariant
                0 <= i <= self.nics@.len(),
                out@ == nics_text(self.nics@.take(i as int)),
            decreases self.nics@.len() - i,
        {
            let n = &self.nics[i];
            out.push('{');
            push_chars(&mut out, n.name.as_str());
            push_chars(&mut out, ": ");
            push_chars(&mut out, n.interface.as_str());
            push_chars(&mut out, "(interface) ");
            push_chars(&mut out, n.gateway.as_str());
            push_chars(&mut out, "(gateway)} ");
            proof {
                assert(self.nics@.take(i + 1).drop_last() =~= self.nics@.take(i as int));
                assert(out@ =~= nics_text(self.nics@.take(i as int)) + nic_text(self.nics@[i as int]));
            }
            i = i + 1;
        }
        proof {
            assert(self.nics@.take(self.nics@.len() as int) =~= self.nics@);
        }
        string_from_chars(out.as_slice())
    }
}

impl FileColumn {
    /// The file's name.
    pub fn to_string(&self) -> (s: String)
        ensures
            s@ == self.filename@,
    {
        self.filename.clone()
    }
}

/// The text of each selection: its values joined by commas.
pub open spec fn selection_texts(v: Seq<Vec<(String, ViewString)>>) -> Seq<Seq<char>> {
    v.map_values(|sel: Vec<(String, ViewString)>| joined(view_texts(sel@), ","@))
}

impl VecSelectColumn {
    /// The selections, each with its values joined by commas, joined by ` | `.
    pub fn to_string(&self) -> (s: String)
        ensures
            s@ == joined(selection_texts(self.selected@), " | "@),
    {
        let mut parts: Vec<String> = Vec::new();
        let mut i: usize = 0;
        while i < self.selected.len()
            invariant
                0 <= i <= self.selected@.len(),
                string_views(parts@) == selection_texts(self.selected@.take(i as int)),
            decreases self.selected@.len() - i,
        {
            let t = value_texts(&self.selected[i]);
            let p = join_strings(&t, ",");
            let ghost before = parts@;
            parts.push(p);
            proof {
                assert(string_views(parts@) =~= string_views(before).push(
                    joined(view_texts(self.selected@[i as int]@), ","@),
                ));
                assert(selection_texts(self.selected@.take(i + 1)) =~= selection_texts(
                    self.selected@.take(i as int),
                ).push(joined(view_texts(self.selected@[i as int]@), ","@)));
            }
            i = i + 1;
        }
        proof {
            assert(self.selected@.take(self.selected@.len() as int) =~= self.selected@);
        }
        join_strings(&parts, " | ")
    }
}

} // verus!
