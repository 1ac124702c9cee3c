//! The columns of a list row as a form takes them, and the form item each
//! column becomes when the row is opened for editing.
use vstd::prelude::*;

use crate::checkbox::CheckStatus;
use crate::comparison::Comparison;
use crate::form::{GroupCell, InputItem};
use crate::ip::{ipv4_text, spec_ipv4, spec_ipv4_net};
use crate::items::{copy_strings, InputNic, InputTagGroup};
use crate::list::{
    HostNetworkGroupColumn, ModalDisplay, NicColumn, SelectMultipleColumn, SelectSingleColumn,
    TagColumn, TextColumn, Unsigned32Column, Unsigned8Column, VecSelectColumn,
};
use crate::model::ViewString;
use crate::network::{
    parse_host_network, range_ends, HostNetwork, InputHostNetworkGroup, IpRange,
};
use crate::sorting::string_views;

verus! {

/// A column of a list row that a form can edit.
pub enum RowColumn {
    Text(TextColumn),
    HostNetworkGroup(HostNetworkGroupColumn),
    SelectSingle(SelectSingleColumn),
    SelectMultiple(SelectMultipleColumn),
    Tag(TagColumn),
    Unsigned32(Unsigned32Column),
    Unsigned8(Unsigned8Column),
    Nic(NicColumn),
    Comparison(Option<Comparison>),
    VecSelect(VecSelectColumn),
    Group(GroupColumn),
    Checkbox(CheckboxColumn),
    Radio(RadioColumn),
}

/// The rows of a group of columns.
pub struct GroupColumn {
    pub groups: Vec<Vec<RowColumn>>,
}

/// A checkbox, with the columns that belong to it.
pub struct CheckboxColumn {
    pub status: CheckStatus,
    pub children: Vec<RowColumn>,
    pub display: Vec<String>,
    pub modal: Vec<ModalDisplay>,
}

/// Radio buttons: the option chosen, and for each option whether it is
/// checked and the columns that belong to it.
pub struct RadioColumn {
    pub selected: ViewString,
    pub children: Vec<(bool, Vec<RowColumn>)>,
    pub display: Vec<String>,
    pub modal: Vec<ModalDisplay>,
}

/// The text reads as a host.
pub open spec fn is_host_text(t: Seq<char>) -> bool {
    spec_ipv4(t) is Some
}

/// The text reads as a network (and not as a host).
pub open spec fn is_network_text(t: Seq<char>) -> bool {
    spec_ipv4(t) is None && spec_ipv4_net(t) is Some
}

/// The text reads as a range `a-b` (and as neither a host nor a network).
pub open spec fn is_range_text(t: Seq<char>) -> bool {
    spec_ipv4(t) is None && spec_ipv4_net(t) is None && range_ends(t, '-') is Some
}

/// The two ends of a range text, as addresses are written.
pub open spec fn range_pair(t: Seq<char>) -> (Seq<char>, Seq<char>) {
    match range_ends(t, '-') {
        Some((_, _, x, y)) => (ipv4_text(x), ipv4_text(y)),
        None => (Seq::empty(), Seq::empty()),
    }
}

pub open spec fn hosts_of(v: Seq<Seq<char>>) -> Seq<Seq<char>> {
    v.filter(|t: Seq<char>| is_host_text(t))
}

pub open spec fn networks_of(v: Seq<Seq<char>>) -> Seq<Seq<char>> {
    v.filter(|t: Seq<char>| is_network_text(t))
}

pub open spec fn ranges_of(v: Seq<Seq<char>>) -> Seq<(Seq<char>, Seq<char>)> {
    v.filter(|t: Seq<char>| is_range_text(t)).map_values(|t: Seq<char>| range_pair(t))
}

/// The ends of ranges as texts.
pub open spec fn range_views(v: Seq<IpRange>) -> Seq<(Seq<char>, Seq<char>)> {
    v.map_values(|r: IpRange| (r.start@, r.end@))
}

/// `g` holds the texts `v` read as hosts, networks and ranges, each in the
/// order given; a text that is none of them is dropped.
pub open spec fn group_from_texts(v: Seq<Seq<char>>, g: InputHostNetworkGroup) -> bool {
    &&& string_views(g.hosts@) == hosts_of(v)
    &&& string_views(g.networks@) == networks_of(v)
    &&& range_views(g.ranges@) == ranges_of(v)
}

/// Reads each text of a host and network column as a host, a network or a
/// range.
pub fn group_from_column(texts: &Vec<String>) -> (g: InputHostNetworkGroup)
    ensures
        group_from_texts(string_views(texts@), g),
{
    let ghost v = string_views(texts@);
    let mut g = InputHostNetworkGroup { hosts: Vec::new(), networks: Vec::new(), ranges: Vec::new() };
    let mut i: usize = 0;
    proof {
        reveal(Seq::filter);
        assert(v.take(0) =~= Seq::<Seq<char>>::empty());
        assert(string_views(g.hosts@) =~= hosts_of(v.take(0)));
        assert(string_views(g.networks@) =~= networks_of(v.take(0)));
        assert(range_views(g.ranges@) =~= ranges_of(v.take(0)));
    }
    while i < texts.len()
        invariant
            i <= texts@.len(),
            v == string_views(texts@),
            group_from_texts(v.take(i as int), g),
        decreases texts@.len() - i,
    {
        let ghost before = g;
        let ghost t = v[i as int];
        proof {
            reveal(Seq::filter);
            assert(v.take(i + 1).drop_last() =~= v.take(i as int));
            assert(v.take(i + 1).last() == t);
            assert(texts@[i as int]@ == t);
        }
        match parse_host_network(texts[i].as_str()) {
            Some(HostNetwork::Host(h)) => {
                g.hosts.push(h);
                assert(string_views(g.hosts@) =~= string_views(before.hosts@).push(t));
            },
            Some(HostNetwork::Network(n)) => {
                g.networks.push(n);
                assert(string_views(g.networks@) =~= string_views(before.networks@).push(t));
            },
            Some(HostNetwork::Range(r)) => {
                let ghost rv = (r.start@, r.end@);
                g.ranges.push(r);
                assert(range_views(g.ranges@) =~= range_views(before.ranges@).push(rv));
                assert(v.take(i + 1).filter(|t: Seq<char>| is_range_text(t)) =~= v.take(
                    i as int,
                ).filter(|t: Seq<char>| is_range_text(t)).push(t));
                assert(ranges_of(v.take(i + 1)) =~= ranges_of(v.take(i as int)).push(range_pair(t)));
            },
            None => {},
        }
        i = i + 1;
    }
    proof {
        assert(v.take(texts@.len() as int) =~= v);
    }
    g
}

/// The ids of (id, value) pairs.
pub open spec fn keys_of(v: Seq<(String, ViewString)>) -> Seq<String> {
    v.map_values(|p: (String, ViewString)| p.0)
}

fn copy_keys(v: &Vec<(String, ViewString)>) -> (r: Vec<String>)
    ensures
        r@ == keys_of(v@),
{
    let mut r: Vec<String> = Vec::new();
    let mut i: usize = 0;
    while i < v.len()
        invariant
            i <= v@.len(),
            r@ == keys_of(v@.take(i as int)),
        decreases v@.len() - i,
    {
        r.push(v[i].0.clone());
        assert(keys_of(v@.take(i + 1)) =~= keys_of(v@.take(i as int)).push(v@[i as int].0));
        i = i + 1;
    }
    assert(v@.take(v@.len() as int) =~= v@);
    r
}

fn copy_nics(v: &Vec<InputNic>) -> (r: Vec<InputNic>)
    ensures
        r@ == v@,
{
    let mut r: Vec<InputNic> = Vec::new();
    let mut i: usize = 0;
    while i < v.len()
        invariant
            i <= v@.len(),
            r@ == v@.take(i as int),
        decreases v@.len() - i,
    {
        r.push(v[i].duplicate());
        assert(v@.take(i + 1) =~= v@.take(i as int).push(v@[i as int]));
        i = i + 1;
    }
    assert(v@.take(v@.len() as int) =~= v@);
    r
}

/// The selection as the form holds it: the id chosen, if any.
pub open spec fn chosen_id(s: Option<(String, ViewString)>) -> Option<String> {
    match s {
        Some(p) => Some(p.0),
        None => None,
    }
}

/// A column that a cell of a group can hold.
pub open spec fn cell_column(c: RowColumn) -> bool {
    c is Text || c is HostNetworkGroup || c is SelectSingle || c is SelectMultiple || c is Unsigned32
}

/// The cell a column of a group becomes.
pub open spec fn cell_of(col: RowColumn, cell: GroupCell) -> bool {
    match col {
        RowColumn::Text(t) => cell matches GroupCell::Text(s) && s@ == t.text.text(),
        RowColumn::HostNetworkGroup(h) => cell matches GroupCell::HostNetworkGroup(g) && group_from_texts(
            string_views(h.host_network_group@),
            g,
        ),
        RowColumn::SelectSingle(s) => cell == GroupCell::SelectSingle(chosen_id(s.selected)),
        RowColumn::SelectMultiple(m) => cell matches GroupCell::SelectMultiple(v) && v@ == keys_of(
            m.selected@,
        ),
        RowColumn::Unsigned32(u) => cell == GroupCell::Unsigned32(u.value),
        _ => false,
    }
}

/// Every cell of every row of the group is a column a cell can hold.
pub open spec fn group_convertible(g: GroupColumn) -> bool {
    forall|r: int, c: int|
        0 <= r < g.groups@.len() && 0 <= c < g.groups@[r]@.len() ==> cell_column(
            #[trigger] g.groups@[r]@[c],
        )
}

/// The item a column becomes; a checkbox becomes the box at `box_index`
/// among the form's boxes (the columns that belong to a checkbox or to an
/// option of radio buttons are items of their own).
pub open spec fn item_of(col: RowColumn, box_index: usize, it: InputItem) -> bool {
    match col {
        RowColumn::Text(t) => it matches InputItem::Text(s) && s@ == t.text.text(),
        RowColumn::HostNetworkGroup(h) => it matches InputItem::HostNetworkGroup(g) && group_from_texts(
            string_views(h.host_network_group@),
            g,
        ),
        RowColumn::SelectSingle(s) => it == InputItem::SelectSingle(chosen_id(s.selected)),
        RowColumn::SelectMultiple(m) => it matches InputItem::SelectMultiple(v) && v@ == keys_of(
            m.selected@,
        ),
        RowColumn::Tag(t) => it matches InputItem::Tag(g) && g.old@ == t.tags@ && g.new is None
            && g.edit is None && g.delete is None,
        RowColumn::Unsigned32(u) => it == InputItem::Unsigned32(u.value),
        RowColumn::Unsigned8(u) => it == InputItem::Unsigned8(u.value),
        RowColumn::Nic(n) => it matches InputItem::Nic(v) && v@ == n.nics@,
        RowColumn::Comparison(c) => it == InputItem::Comparison(c),
        RowColumn::VecSelect(vs) => it matches InputItem::VecSelect(w) && w@.len() == vs.selected@.len()
            && forall|k: int| 0 <= k < w@.len() ==> (#[trigger] w@[k])@ == keys_of(vs.selected@[k]@),
        RowColumn::Group(g) => it matches InputItem::Group(rows) && rows@.len() == g.groups@.len()
            && forall|r: int|
            0 <= r < rows@.len() ==> {
                &&& (#[trigger] rows@[r])@.len() == g.groups@[r]@.len()
                &&& forall|c: int| 0 <= c < rows@[r]@.len() ==> cell_of(g.groups@[r]@[c], #[trigger] rows@[r]@[c])
            },
        RowColumn::Checkbox(_) => it == InputItem::Checkbox(box_index),
        RowColumn::Radio(r) => it matches InputItem::Radio(s) && s@ == r.selected.text(),
    }
}

/// A column can be opened in a form: a group holds only the columns a cell
/// can hold (others make the form panic).
pub open spec fn column_convertible(col: RowColumn) -> bool {
    col matches RowColumn::Group(g) ==> group_convertible(g)
}

fn cell_from_column(col: &RowColumn) -> (cell: GroupCell)
    requires
        cell_column(*col),
    ensures
        cell_of(*col, cell),
{
    match col {
        RowColumn::Text(t) => GroupCell::Text(t.text.to_string()),
        RowColumn::HostNetworkGroup(h) => GroupCell::HostNetworkGroup(group_from_column(&h.host_network_group)),
        RowColumn::SelectSingle(s) => GroupCell::SelectSingle(
            match &s.selected {
                Some(p) => Some(p.0.clone()),
                None => None,
            },
        ),
        RowColumn::SelectMultiple(m) => GroupCell::SelectMultiple(copy_keys(&m.selected)),
        RowColumn::Unsigned32(u) => GroupCell::Unsigned32(u.value),
        _ => {
            assert(false);
            GroupCell::Unsigned32(None)
        },
    }
}

fn rows_from_group(g: &GroupColumn) -> (rows: Vec<Vec<GroupCell>>)
    requires
        group_convertible(*g),
    ensures
        rows@.len() == g.groups@.len(),
        forall|r: int|
            0 <= r < rows@.len() ==> {
                &&& (#[trigger] rows@[r])@.len() == g.groups@[r]@.len()
                &&& forall|c: int| 0 <= c < rows@[r]@.len() ==> cell_of(g.groups@[r]@[c], #[trigger] rows@[r]@[c])
            },
{
    let mut rows: Vec<Vec<GroupCell>> = Vec::new();
    let mut r: usize = 0;
    while r < g.groups.len()
        invariant
            group_convertible(*g),
            r <= g.groups@.len(),
            rows@.len() == r,
            forall|p: int|
                0 <= p < r ==> {
                    &&& (#[trigger] rows@[p])@.len() == g.groups@[p]@.len()
                    &&& forall|c: int| 0 <= c < rows@[p]@.len() ==> cell_of(g.groups@[p]@[c], #[trigger] rows@[p]@[c])
                },
        decreases g.groups@.len() - r,
    {
        let src = &g.groups[r];
        let mut row: Vec<GroupCell> = Vec::new();
        let mut c: usize = 0;
        while c < src.len()
            invariant
                group_convertible(*g),
                r < g.groups@.len(),
                *src == g.groups@[r as int],
                c <= src@.len(),
                row@.len() == c,
                forall|q: int| 0 <= q < c ==> cell_of(src@[q], #[trigger] row@[q]),
            decreases src@.len() - c,
        {
            assert(cell_column(g.groups@[r as int]@[c as int]));
            row.push(cell_from_column(&src[c]));
            c = c + 1;
        }
        rows.push(row);
        r = r + 1;
    }
    rows
}

fn selections_keys(v: &Vec<Vec<(String, ViewString)>>) -> (w: Vec<Vec<String>>)
    ensures
        w@.len() == v@.len(),
        forall|k: int| 0 <= k < w@.len() ==> (#[trigger] w@[k])@ == keys_of(v@[k]@),
{
    let mut w: Vec<Vec<String>> = Vec::new();
    let mut k: usize = 0;
    while k < v.len()
        invariant
            k <= v@.len(),
            w@.len() == k,
            forall|q: int| 0 <= q < k ==> (#[trigger] w@[q])@ == keys_of(v@[q]@),
        decreases v@.len() - k,
    {
        w.push(copy_keys(&v[k]));
        k = k + 1;
    }
    w
}

/// The form item a column of a list row becomes when the row is edited; a
/// checkbox becomes the box at `box_index` among the form's boxes.
pub fn item_from_column(col: &RowColumn, box_index: usize) -> (it: InputItem)
    requires
        column_convertible(*col),
    ensures
        item_of(*col, box_index, it),
{
    match col {
        RowColumn::Text(t) => InputItem::Text(t.text.to_string()),
        RowColumn::HostNetworkGroup(h) => InputItem::HostNetworkGroup(group_from_column(&h.host_network_group)),
        RowColumn::SelectSingle(s) => InputItem::SelectSingle(
            match &s.selected {
                Some(p) => Some(p.0.clone()),
                None => None,
            },
        ),
        RowColumn::SelectMultiple(m) => InputItem::SelectMultiple(copy_keys(&m.selected)),
        RowColumn::Tag(t) => InputItem::Tag(
            InputTagGroup { old: copy_strings(t.tags.as_slice()), new: None, edit: None, delete: None },
        ),
        RowColumn::Unsigned32(u) => InputItem::Unsigned32(u.value),
        RowColumn::Unsigned8(u) => InputItem::Unsigned8(u.value),
        RowColumn::Nic(n) => InputItem::Nic(copy_nics(&n.nics)),
        RowColumn::Comparison(c) => InputItem::Comparison(
            match c {
                Some(x) => Some(x.duplicate()),
                None => None,
            },
        ),
        RowColumn::VecSelect(vs) => InputItem::VecSelect(selections_keys(&vs.selected)),
        RowColumn::Group(g) => InputItem::Group(rows_from_group(g)),
        RowColumn::Checkbox(_) => InputItem::Checkbox(box_index),
        RowColumn::Radio(r) => InputItem::Radio(r.selected.to_string()),
    }
}

} // verus!
