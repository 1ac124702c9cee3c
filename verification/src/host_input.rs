//! The editor of a host/network field: what typing, Enter, Tab, Backspace and
//! deleting an entry do to the entered text, the group of entries and the
//! order in which the entries are shown.
use vstd::prelude::*;

use crate::config::HostNetworkKind;
use crate::ip::{ipv4_text, law_ipv4_text_parses, spec_ipv4, spec_ipv4_net};
use crate::network::{HostNetwork, InputHostNetworkGroup, IpRange, parse_host_network, range_ends};
use crate::sorting::{holds, string_views};
use crate::text::{chars_equal, chars_of, split_once, split_once_chars, string_from_chars};

verus! {

/// An entry shown in the field: which list it is in, and where.
#[derive(Clone, Copy, PartialEq, Eq, Structural)]
pub enum ItemType {
    Host(usize),
    Network(usize),
    Range(usize),
}

/// The entry a user deletes.
#[derive(Clone, Copy, PartialEq, Eq, Structural)]
pub enum DeleteIndex {
    Host(usize),
    Network(usize),
    Range(usize),
}

/// What the field tells the user about the last entry: it is already
/// there, it is not an entry the field accepts (of any kind, or as a host),
/// or the field holds too many entries.
#[derive(Clone, Copy, PartialEq, Eq, Structural)]
pub enum EntryMessage {
    Exists,
    Invalid,
    InvalidHost,
    MaxNum,
}

/// What an entered text reads as: an address, a network, or a range given
/// by its two addresses.
pub enum EntryView {
    Host(Seq<char>),
    Network(Seq<char>),
    Range(u32, u32),
}

/// How `parse_host_network` reads a text.
pub open spec fn entry_of(t: Seq<char>) -> Option<EntryView> {
    if spec_ipv4(t) is Some {
        Some(EntryView::Host(t))
    } else if spec_ipv4_net(t) is Some {
        Some(EntryView::Network(t))
    } else {
        match range_ends(t, '-') {
            Some((_, _, x, y)) => Some(EntryView::Range(x, y)),
            None => None,
        }
    }
}

/// The part of the entered text before its first comma, or else before its
/// first semicolon.
pub open spec fn entry_text(s: Seq<char>) -> Seq<char> {
    match split_once(s, ',') {
        Some((l, _)) => l,
        None => match split_once(s, ';') {
            Some((l, _)) => l,
            None => s,
        },
    }
}

/// A stored range at the same place in the range order as the range from
/// `x` to `y` (a stored range that is not two addresses is at every place).
pub open spec fn range_matches(r: IpRange, x: u32, y: u32) -> bool {
    match r.bounds() {
        Some(b) => b == (x, y),
        None => true,
    }
}

/// The entries in the order a field first shows them: hosts, networks, ranges.
pub open spec fn initial_order(hosts: nat, networks: nat, ranges: nat) -> Seq<ItemType> {
    Seq::new(hosts, |i: int| ItemType::Host(i as usize)) + Seq::new(
        networks,
        |i: int| ItemType::Network(i as usize),
    ) + Seq::new(ranges, |i: int| ItemType::Range(i as usize))
}

/// An entry after the entry `gone` left its list: later ones of the same list
/// move up by one.
pub open spec fn shifted(e: ItemType, gone: ItemType) -> ItemType {
    match (e, gone) {
        (ItemType::Host(i), ItemType::Host(j)) => if i > j {
            ItemType::Host((i - 1) as usize)
        } else {
            e
        },
        (ItemType::Network(i), ItemType::Network(j)) => if i > j {
            ItemType::Network((i - 1) as usize)
        } else {
            e
        },
        (ItemType::Range(i), ItemType::Range(j)) => if i > j {
            ItemType::Range((i - 1) as usize)
        } else {
            e
        },
        _ => e,
    }
}

/// The shown order after the entry `gone` was deleted.
pub open spec fn after_removal(order: Seq<ItemType>, gone: ItemType) -> Seq<ItemType>
    decreases order.len(),
{
    if order.len() == 0 {
        Seq::empty()
    } else {
        let rest = after_removal(order.drop_last(), gone);
        if order.last() == gone {
            rest
        } else {
            rest.push(shifted(order.last(), gone))
        }
    }
}

/// The number of entries is over the field's limit.
pub open spec fn over_limit(g: InputHostNetworkGroup, num: Option<usize>) -> bool {
    match num {
        Some(n) => g.hosts.len() + g.networks.len() + g.ranges.len() > n,
        None => false,
    }
}

/// Whether the number of entries is over the field's limit.
pub fn max_reached(group: &InputHostNetworkGroup, num: Option<usize>) -> (b: bool)
    ensures
        b == over_limit(*group, num),
{
    match num {
        Some(n) => (group.hosts.len() as u128) + (group.networks.len() as u128) + (
        group.ranges.len() as u128) > (n as u128),
        None => false,
    }
}

/// What the parent of the field is told when the form is saved.
#[derive(Clone, Copy, PartialEq, Eq, Structural)]
pub enum SaveAnswer {
    /// Nothing is sent (the field holds too many entries).
    Nothing,
    /// The entries may be saved.
    Save,
    /// The entered text was refused.
    NoSave,
}

/// What a Tab or Backspace key leads to.
#[derive(Clone, Copy, PartialEq, Eq, Structural)]
pub enum KeyAction {
    /// Nothing more.
    Nothing,
    /// The parent is told that the entries changed.
    Changed,
    /// The entered text is to be taken as an entry.
    Enter,
}

/// The position of the entry `e` is within its list.
pub open spec fn in_range(g: InputHostNetworkGroup, e: ItemType) -> bool {
    match e {
        ItemType::Host(i) => i < g.hosts@.len(),
        ItemType::Network(i) => i < g.networks@.len(),
        ItemType::Range(i) => i < g.ranges@.len(),
    }
}

/// `h` is `g` with the entry `e` gone from its list when its position is in
/// range, and `g` itself otherwise.
pub open spec fn removed_from(g: InputHostNetworkGroup, h: InputHostNetworkGroup, e: ItemType) -> bool {
    match e {
        ItemType::Host(i) => h.networks@ == g.networks@ && h.ranges@ == g.ranges@ && h.hosts@ == (
        if i < g.hosts@.len() {
            g.hosts@.remove(i as int)
        } else {
            g.hosts@
        }),
        ItemType::Network(i) => h.hosts@ == g.hosts@ && h.ranges@ == g.ranges@ && h.networks@ == (
        if i < g.networks@.len() {
            g.networks@.remove(i as int)
        } else {
            g.networks@
        }),
        ItemType::Range(i) => h.hosts@ == g.hosts@ && h.networks@ == g.networks@ && h.ranges@ == (
        if i < g.ranges@.len() {
            g.ranges@.remove(i as int)
        } else {
            g.ranges@
        }),
    }
}

fn shift_entry(e: ItemType, gone: ItemType) -> (r: ItemType)
    ensures
        r == shifted(e, gone),
{
    match (e, gone) {
        (ItemType::Host(i), ItemType::Host(j)) => if i > j {
            ItemType::Host(i - 1)
        } else {
            e
        },
        (ItemType::Network(i), ItemType::Network(j)) => if i > j {
            ItemType::Network(i - 1)
        } else {
            e
        },
        (ItemType::Range(i), ItemType::Range(j)) => if i > j {
            ItemType::Range(i - 1)
        } else {
            e
        },
        _ => e,
    }
}

/// The shown order once the entry `gone` was deleted.
pub fn order_after_removal(order: &Vec<ItemType>, gone: ItemType) -> (r: Vec<ItemType>)
    ensures
        r@ == after_removal(order@, gone),
{
    let mut r: Vec<ItemType> = Vec::new();
    let mut i: usize = 0;
    while i < order.len()
        invariant
            0 <= i <= order@.len(),
            r@ == after_removal(order@.take(i as int), gone),
        decreases order@.len() - i,
    {
        proof {
            assert(order@.take(i + 1).drop_last() =~= order@.take(i as int));
        }
        let e = order[i];
        if e != gone {
            r.push(shift_entry(e, gone));
        }
        i = i + 1;
    }
    proof {
        assert(order@.take(order@.len() as int) =~= order@);
    }
    r
}

/// The state of a host/network field.
pub struct HostNetworkInput {
    pub input: String,
    pub message: Option<EntryMessage>,
    pub view_order: Vec<ItemType>,
}

fn without_last_char(s: &String) -> (r: String)
    ensures
        r@ == (if s@.len() > 0 {
            s@.drop_last()
        } else {
            s@
        }),
{
    let c = chars_of(s.as_str());
    if c.len() == 0 {
        return s.clone();
    }
    let mut d: Vec<char> = Vec::new();
    let mut i: usize = 0;
    while i < c.len() - 1
        invariant
            c@ == s@,
            c@.len() > 0,
            0 <= i <= c@.len() - 1,
            d@ == c@.take(i as int),
        decreases c@.len() - i,
    {
        d.push(c[i]);
        proof {
            assert(c@.take(i + 1) =~= c@.take(i as int).push(c@[i as int]));
        }
        i = i + 1;
    }
    proof {
        assert(c@.take(i as int) =~= c@.drop_last());
    }
    string_from_chars(d.as_slice())
}

fn first_part(s: &String) -> (r: String)
    ensures
        r@ == entry_text(s@),
{
    let c = chars_of(s.as_str());
    match split_once_chars(c.as_slice(), ',') {
        Some((l, _)) => string_from_chars(l.as_slice()),
        None => match split_once_chars(c.as_slice(), ';') {
            Some((l, _)) => string_from_chars(l.as_slice()),
            None => s.clone(),
        },
    }
}

fn is_text(s: &str, lit: &str) -> (b: bool)
    ensures
        b == (s@ == lit@),
{
    let a = chars_of(s);
    let b = chars_of(lit);
    chars_equal(a.as_slice(), b.as_slice())
}

fn range_already_there(ranges: &Vec<IpRange>, g: &IpRange) -> (b: bool)
    requires
        g.bounds() is Some,
    ensures
        b == exists|i: int|
            0 <= i < ranges@.len() && range_matches(
                #[trigger] ranges@[i],
                g.bounds().unwrap().0,
                g.bounds().unwrap().1,
            ),
{
    let ghost x = g.bounds().unwrap().0;
    let ghost y = g.bounds().unwrap().1;
    let mut i: usize = 0;
    while i < ranges.len()
        invariant
            0 <= i <= ranges@.len(),
            g.bounds() == Some((x, y)),
            forall|k: int| 0 <= k < i ==> !range_matches(#[trigger] ranges@[k], x, y),
        decreases ranges@.len() - i,
    {
        let same = ranges[i].is_same_place(g);
        assert(same == range_matches(ranges@[i as int], x, y));
        if same {
            return true;
        }
        i = i + 1;
    }
    false
}

/// The entries of `g` and `h` other than the list `which` are equal.
pub open spec fn others_kept(g: InputHostNetworkGroup, h: InputHostNetworkGroup, which: int) -> bool {
    &&& (which != 0 ==> g.hosts@ == h.hosts@)
    &&& (which != 1 ==> g.networks@ == h.networks@)
    &&& (which != 2 ==> g.ranges@ == h.ranges@)
}

/// What taking the text `t` as an entry does, from the message `m`, the
/// shown order `o` and the group `g`, to the field `s` and the group `h`,
/// with the result `r` (see `HostNetworkInput::add_entry`).
pub open spec fn add_outcome(
    t: Seq<char>,
    m: Option<EntryMessage>,
    o: Seq<ItemType>,
    s: HostNetworkInput,
    g: InputHostNetworkGroup,
    h: InputHostNetworkGroup,
    kind: HostNetworkKind,
    r: Option<bool>,
) -> bool {
    if t.len() == 0 {
        &&& r is None
        &&& s.input@ == t
        &&& s.message == m
        &&& s.view_order@ == o
        &&& h.hosts@ == g.hosts@ && h.networks@ == g.networks@ && h.ranges@ == g.ranges@
    } else {
        match (entry_of(t), kind) {
            (Some(EntryView::Host(a)), _) => if string_views(g.hosts@).contains(a) {
                &&& r == Some(false)
                &&& s.message == Some(EntryMessage::Exists)
                &&& s.input@ == t
                &&& s.view_order@ == o
                &&& others_kept(g, h, -1)
            } else {
                &&& r == Some(true)
                &&& s.message == m
                &&& s.input@ == Seq::<char>::empty()
                &&& s.view_order@ == o.push(ItemType::Host(g.hosts.len()))
                &&& string_views(h.hosts@) == string_views(g.hosts@).push(a)
                &&& others_kept(g, h, 0)
            },
            (Some(EntryView::Network(a)), HostNetworkKind::All) => if string_views(
                g.networks@,
            ).contains(a) {
                &&& r == Some(false)
                &&& s.message == Some(EntryMessage::Exists)
                &&& s.input@ == t
                &&& s.view_order@ == o
                &&& others_kept(g, h, -1)
            } else {
                &&& r == Some(true)
                &&& s.message == m
                &&& s.input@ == Seq::<char>::empty()
                &&& s.view_order@ == o.push(ItemType::Network(g.networks.len()))
                &&& string_views(h.networks@) == string_views(g.networks@).push(a)
                &&& others_kept(g, h, 1)
            },
            (Some(EntryView::Range(x, y)), HostNetworkKind::All) => if exists|i: int|
                0 <= i < g.ranges@.len() && range_matches(#[trigger] g.ranges@[i], x, y) {
                &&& r == Some(false)
                &&& s.message == Some(EntryMessage::Exists)
                &&& s.input@ == t
                &&& s.view_order@ == o
                &&& others_kept(g, h, -1)
            } else {
                &&& r == Some(true)
                &&& s.message == m
                &&& s.input@ == Seq::<char>::empty()
                &&& s.view_order@ == o.push(ItemType::Range(g.ranges.len()))
                &&& h.ranges@.len() == g.ranges@.len() + 1
                &&& h.ranges@.drop_last() == g.ranges@
                &&& h.ranges@.last().start@ == ipv4_text(x)
                &&& h.ranges@.last().end@ == ipv4_text(y)
                &&& others_kept(g, h, 2)
            },
            (_, HostNetworkKind::All) => {
                &&& r == Some(false)
                &&& s.message == Some(EntryMessage::Invalid)
                &&& s.input@ == t
                &&& s.view_order@ == o
                &&& others_kept(g, h, -1)
            },
            (_, HostNetworkKind::HostOnly) => {
                &&& r == Some(false)
                &&& s.message == Some(EntryMessage::InvalidHost)
                &&& s.input@ == t
                &&& s.view_order@ == o
                &&& others_kept(g, h, -1)
            },
        }
    }
}

/// The text `t` is refused as an entry of `g`: it is already there, or it
/// is not an entry the field accepts.
pub open spec fn entry_refused(t: Seq<char>, g: InputHostNetworkGroup, kind: HostNetworkKind) -> bool {
    match (entry_of(t), kind) {
        (Some(EntryView::Host(a)), _) => string_views(g.hosts@).contains(a),
        (Some(EntryView::Network(a)), HostNetworkKind::All) => string_views(g.networks@).contains(a),
        (Some(EntryView::Range(x, y)), HostNetworkKind::All) => exists|i: int|
            0 <= i < g.ranges@.len() && range_matches(#[trigger] g.ranges@[i], x, y),
        _ => true,
    }
}

impl HostNetworkInput {
    /// A field showing the entries of `group`: hosts, then networks, then ranges.
    pub fn new(group: &InputHostNetworkGroup) -> (s: Self)
        ensures
            s.input@ == Seq::<char>::empty(),
            s.message is None,
            s.view_order@ == initial_order(
                group.hosts@.len(),
                group.networks@.len(),
                group.ranges@.len(),
            ),
    {
        let mut order: Vec<ItemType> = Vec::new();
        let mut i: usize = 0;
        while i < group.hosts.len()
            invariant
                0 <= i <= group.hosts@.len(),
                order@ == Seq::new(i as nat, |k: int| ItemType::Host(k as usize)),
            decreases group.hosts@.len() - i,
        {
            order.push(ItemType::Host(i));
            proof {
                assert(order@ =~= Seq::new((i + 1) as nat, |k: int| ItemType::Host(k as usize)));
            }
            i = i + 1;
        }
        let ghost hosts = order@;
        let mut j: usize = 0;
        while j < group.networks.len()
            invariant
                0 <= j <= group.networks@.len(),
                order@ == hosts + Seq::new(j as nat, |k: int| ItemType::Network(k as usize)),
            decreases group.networks@.len() - j,
        {
            order.push(ItemType::Network(j));
            proof {
                assert(order@ =~= hosts + Seq::new(
                    (j + 1) as nat,
                    |k: int| ItemType::Network(k as usize),
                ));
            }
            j = j + 1;
        }
        let ghost hosts_networks = order@;
        let mut k: usize = 0;
        while k < group.ranges.len()
            invariant
                0 <= k <= group.ranges@.len(),
                order@ == hosts_networks + Seq::new(k as nat, |q: int| ItemType::Range(q as usize)),
            decreases group.ranges@.len() - k,
        {
            order.push(ItemType::Range(k));
            proof {
                assert(order@ =~= hosts_networks + Seq::new(
                    (k + 1) as nat,
                    |q: int| ItemType::Range(q as usize),
                ));
            }
            k = k + 1;
        }
        HostNetworkInput { input: String::new(), message: None, view_order: order }
    }

    /// The user typed: the text is kept and the message cleared.
    pub fn type_text(&mut self, text: String)
        ensures
            final(self).input == text,
            final(self).message is None,
            final(self).view_order@ == old(self).view_order@,
    {
        self.input = text;
        self.message = None;
    }

    /// Takes the entered text (up to a comma or semicolon) as a new entry of
    /// `group`: `None` when it is empty; `Some(true)` when it was added (and
    /// the text cleared); `Some(false)`, with a message, when it is already
    /// there (an equal address or network, a range at the same place) or is
    /// not an entry the field accepts.
    pub fn add_entry(&mut self, group: &mut InputHostNetworkGroup, kind: HostNetworkKind) -> (r: Option<bool>)
        ensures
            add_outcome(
                entry_text(old(self).input@),
                old(self).message,
                old(self).view_order@,
                *final(self),
                *old(group),
                *final(group),
                kind,
                r,
            ),
            r == (if entry_text(old(self).input@).len() == 0 {
                None
            } else {
                Some(!entry_refused(entry_text(old(self).input@), *old(group), kind))
            }),
    {
        let t = first_part(&self.input);
        self.input = t;
        if self.input.as_str().is_empty() {
            return None;
        }
        let parsed = parse_host_network(self.input.as_str());
        proof {
            let tv = self.input@;
            if spec_ipv4(tv) is Some {
                assert(entry_of(tv) == Some(EntryView::Host(tv)));
            }
        }
        match parsed {
            Some(HostNetwork::Host(host)) => {
                if holds(&group.hosts, &host) {
                    self.message = Some(EntryMessage::Exists);
                    Some(false)
                } else {
                    self.view_order.push(ItemType::Host(group.hosts.len()));
                    let ghost before = group.hosts@;
                    group.hosts.push(host);
                    proof {
                        assert(string_views(group.hosts@) =~= string_views(before).push(
                            self.input@,
                        ));
                    }
                    self.input = String::new();
                    Some(true)
                }
            },
            Some(HostNetwork::Network(network)) => {
                match kind {
                    HostNetworkKind::All => {
                        if holds(&group.networks, &network) {
                            self.message = Some(EntryMessage::Exists);
                            Some(false)
                        } else {
                            self.view_order.push(ItemType::Network(group.networks.len()));
                            let ghost before = group.networks@;
                            group.networks.push(network);
                            proof {
                                assert(string_views(group.networks@) =~= string_views(before).push(
                                    self.input@,
                                ));
                            }
                            self.input = String::new();
                            Some(true)
                        }
                    },
                    HostNetworkKind::HostOnly => {
                        self.message = Some(EntryMessage::InvalidHost);
                        Some(false)
                    },
                }
            },
            Some(HostNetwork::Range(range)) => {
                match kind {
                    HostNetworkKind::All => {
                        let ghost tv = self.input@;
                        let ghost x = range_ends(tv, '-').unwrap().2;
                        let ghost y = range_ends(tv, '-').unwrap().3;
                        proof {
                            law_ipv4_text_parses(x);
                            law_ipv4_text_parses(y);
                            assert(range.bounds() == Some((x, y)));
                        }
                        let found = range_already_there(&group.ranges, &range);
                        if found {
                            self.message = Some(EntryMessage::Exists);
                            Some(false)
                        } else {
                            self.view_order.push(ItemType::Range(group.ranges.len()));
                            let ghost before = group.ranges@;
                            group.ranges.push(range);
                            proof {
                                assert(group.ranges@.drop_last() =~= before);
                            }
                            self.input = String::new();
                            Some(true)
                        }
                    },
                    HostNetworkKind::HostOnly => {
                        self.message = Some(EntryMessage::InvalidHost);
                        Some(false)
                    },
                }
            },
            None => {
                match kind {
                    HostNetworkKind::All => {
                        self.message = Some(EntryMessage::Invalid);
                    },
                    HostNetworkKind::HostOnly => {
                        self.message = Some(EntryMessage::InvalidHost);
                    },
                }
                Some(false)
            },
        }
    }

    /// Enter (or a typed `;` or `,`, which is dropped from the text): when
    /// the field holds too many entries it says so; otherwise the text is
    /// taken as an entry. The result tells whether one was added, which the
    /// parent is then told.
    pub fn enter(&mut self, last: &str, group: &mut InputHostNetworkGroup, num: Option<usize>, kind: HostNetworkKind) -> (added: bool)
        ensures
            ({
                let dropped = last@ == ";"@ || last@ == ","@;
                let text = if dropped && old(self).input@.len() > 0 {
                    old(self).input@.drop_last()
                } else {
                    old(self).input@
                };
                if over_limit(*old(group), num) {
                    &&& !added
                    &&& final(self).message == Some(EntryMessage::MaxNum)
                    &&& final(self).input@ == text
                    &&& final(self).view_order@ == old(self).view_order@
                    &&& *final(group) == *old(group)
                } else {
                    &&& add_outcome(
                        entry_text(text),
                        old(self).message,
                        old(self).view_order@,
                        *final(self),
                        *old(group),
                        *final(group),
                        kind,
                        if entry_text(text).len() == 0 {
                            None
                        } else {
                            Some(added)
                        },
                    )
                    &&& added == (entry_text(text).len() > 0 && !entry_refused(
                        entry_text(text),
                        *old(group),
                        kind,
                    ))
                }
            }),
    {
        if is_text(last, ";") || is_text(last, ",") {
            self.input = without_last_char(&self.input);
        }
        if max_reached(group, num) {
            self.message = Some(EntryMessage::MaxNum);
            false
        } else {
            let r = self.add_entry(group, kind);
            match r {
                Some(true) => true,
                _ => false,
            }
        }
    }

    /// Tab or Backspace. Backspace with no text typed deletes the entry shown
    /// last (from its list when its position is in range) and tells the
    /// parent; Tab with text typed takes the text as an entry.
    pub fn press_key(&mut self, key: &str, group: &mut InputHostNetworkGroup) -> (a: KeyAction)
        ensures
            key@ == "Backspace"@ && old(self).input@.len() == 0 ==> {
                &&& final(self).view_order@ == (if old(self).view_order@.len() > 0 {
                    old(self).view_order@.drop_last()
                } else {
                    old(self).view_order@
                })
                &&& a == (if old(self).view_order@.len() > 0 {
                    KeyAction::Changed
                } else {
                    KeyAction::Nothing
                })
                &&& (if old(self).view_order@.len() > 0 {
                    removed_from(*old(group), *final(group), old(self).view_order@.last())
                } else {
                    *final(group) == *old(group)
                })
            },
            !(key@ == "Backspace"@ && old(self).input@.len() == 0) ==> {
                &&& final(self).view_order@ == old(self).view_order@
                &&& *final(group) == *old(group)
                &&& a == (if key@ == "Tab"@ && old(self).input@.len() > 0 {
                    KeyAction::Enter
                } else {
                    KeyAction::Nothing
                })
            },
            final(self).input == old(self).input,
            final(self).message == old(self).message,
    {
        proof {
            reveal_strlit("Backspace");
            reveal_strlit("Tab");
        }
        if is_text(key, "Backspace") {
            if self.input.as_str().is_empty() {
                let last = self.view_order.pop();
                match last {
                    Some(ItemType::Host(index)) => {
                        if index < group.hosts.len() {
                            group.hosts.remove(index);
                        }
                        KeyAction::Changed
                    },
                    Some(ItemType::Network(index)) => {
                        if index < group.networks.len() {
                            group.networks.remove(index);
                        }
                        KeyAction::Changed
                    },
                    Some(ItemType::Range(index)) => {
                        if index < group.ranges.len() {
                            group.ranges.remove(index);
                        }
                        KeyAction::Changed
                    },
                    None => KeyAction::Nothing,
                }
            } else {
                assert(key@.len() != "Tab"@.len());
                KeyAction::Nothing
            }
        } else if is_text(key, "Tab") {
            if self.input.as_str().is_empty() {
                KeyAction::Nothing
            } else {
                KeyAction::Enter
            }
        } else {
            KeyAction::Nothing
        }
    }

    /// Deletes an entry: when its position is in range it leaves its list
    /// and the shown order (later entries of that list move up by one). The
    /// message is cleared either way.
    pub fn delete(&mut self, group: &mut InputHostNetworkGroup, index: DeleteIndex)
        ensures
            final(self).message is None,
            final(self).input == old(self).input,
            ({
                let e = match index {
                    DeleteIndex::Host(i) => ItemType::Host(i),
                    DeleteIndex::Network(i) => ItemType::Network(i),
                    DeleteIndex::Range(i) => ItemType::Range(i),
                };
                if in_range(*old(group), e) {
                    &&& removed_from(*old(group), *final(group), e)
                    &&& final(self).view_order@ == after_removal(old(self).view_order@, e)
                } else {
                    &&& *final(group) == *old(group)
                    &&& final(self).view_order@ == old(self).view_order@
                }
            }),
    {
        let e = match index {
            DeleteIndex::Host(i) => ItemType::Host(i),
            DeleteIndex::Network(i) => ItemType::Network(i),
            DeleteIndex::Range(i) => ItemType::Range(i),
        };
        let removed = match e {
            ItemType::Host(i) => if i < group.hosts.len() {
                group.hosts.remove(i);
                true
            } else {
                false
            },
            ItemType::Network(i) => if i < group.networks.len() {
                group.networks.remove(i);
                true
            } else {
                false
            },
            ItemType::Range(i) => if i < group.ranges.len() {
                group.ranges.remove(i);
                true
            } else {
                false
            },
        };
        if removed {
            self.view_order = order_after_removal(&self.view_order, e);
        }
        self.message = None;
    }

    /// The form is being saved: with too many entries the field says so and
    /// sends nothing; otherwise the typed text is taken as an entry and the
    /// parent may save unless the text was refused.
    pub fn verify_to_save(&mut self, group: &mut InputHostNetworkGroup, num: Option<usize>, kind: HostNetworkKind) -> (a: SaveAnswer)
        ensures
            a == (if over_limit(*old(group), num) {
                SaveAnswer::Nothing
            } else if entry_text(old(self).input@).len() > 0 && entry_refused(
                entry_text(old(self).input@),
                *old(group),
                kind,
            ) {
                SaveAnswer::NoSave
            } else {
                SaveAnswer::Save
            }),
            over_limit(*old(group), num) ==> {
                &&& final(self).message == Some(EntryMessage::MaxNum)
                &&& *final(group) == *old(group)
                &&& final(self).input == old(self).input
                &&& final(self).view_order@ == old(self).view_order@
            },
            !over_limit(*old(group), num) ==> exists|r: Option<bool>|
                add_outcome(
                    entry_text(old(self).input@),
                    old(self).message,
                    old(self).view_order@,
                    *final(self),
                    *old(group),
                    *final(group),
                    kind,
                    r,
                ),
    {
        if max_reached(group, num) {
            self.message = Some(EntryMessage::MaxNum);
            SaveAnswer::Nothing
        } else {
            match self.add_entry(group, kind) {
                Some(false) => SaveAnswer::NoSave,
                _ => SaveAnswer::Save,
            }
        }
    }
}



proof fn lemma_after_removal_keeps_lower(o: Seq<ItemType>, n: usize)
    requires
        forall|k: int| 0 <= k < o.len() ==> (#[trigger] o[k] is Host ==> o[k]->Host_0 < n),
    ensures
        after_removal(o, ItemType::Host(n)) == o,
    decreases o.len(),
{
    if o.len() > 0 {
        let d = o.drop_last();
        assert forall|k: int| 0 <= k < d.len() implies (#[trigger] d[k] is Host ==> d[k]->Host_0 < n) by {
            assert(d[k] == o[k]);
        }
        lemma_after_removal_keeps_lower(d, n);
        let l = o.last();
        assert(o[o.len() - 1] == l);
        assert(shifted(l, ItemType::Host(n)) == l);
        assert(d.push(l) =~= o);
    }
}

/// Deleting the host that was just added gives back the field as it was:
/// the hosts, and the shown order (whose hosts were all in range).
pub proof fn law_delete_undoes_add(
    g: InputHostNetworkGroup,
    x: String,
    h: InputHostNetworkGroup,
    k: InputHostNetworkGroup,
    o: Seq<ItemType>,
)
    requires
        h.hosts@ == g.hosts@.push(x),
        h.networks@ == g.networks@,
        h.ranges@ == g.ranges@,
        forall|i: int| 0 <= i < o.len() ==> (#[trigger] o[i] is Host ==> o[i]->Host_0 < g.hosts@.len()),
        removed_from(h, k, ItemType::Host(g.hosts@.len() as usize)),
        g.hosts@.len() < usize::MAX,
    ensures
        k.hosts@ == g.hosts@,
        k.networks@ == g.networks@,
        k.ranges@ == g.ranges@,
        after_removal(o.push(ItemType::Host(g.hosts@.len() as usize)), ItemType::Host(g.hosts@.len() as usize)) == o,
{
    let n = g.hosts@.len() as usize;
    assert(h.hosts@.remove(n as int) =~= g.hosts@);
    let p = o.push(ItemType::Host(n));
    assert(p.drop_last() =~= o);
    lemma_after_removal_keeps_lower(o, n);
}

/// What an entry of the shown order stands for: its list and its text
/// (the two ends for a range).
pub open spec fn shown_entry(g: InputHostNetworkGroup, e: ItemType) -> (int, Seq<char>, Seq<char>) {
    match e {
        ItemType::Host(i) => (0, g.hosts@[i as int]@, Seq::empty()),
        ItemType::Network(i) => (1, g.networks@[i as int]@, Seq::empty()),
        ItemType::Range(i) => (2, g.ranges@[i as int].start@, g.ranges@[i as int].end@),
    }
}

/// Every entry of the shown order is within its list.
pub open spec fn order_within(g: InputHostNetworkGroup, o: Seq<ItemType>) -> bool {
    forall|k: int| 0 <= k < o.len() ==> in_range(g, #[trigger] o[k])
}

/// The entries the shown order stands for, in order.
pub open spec fn shown_entries(g: InputHostNetworkGroup, o: Seq<ItemType>) -> Seq<(int, Seq<char>, Seq<char>)> {
    o.map_values(|e: ItemType| shown_entry(g, e))
}

/// The shown order without the entry `gone`.
pub open spec fn order_without(o: Seq<ItemType>, gone: ItemType) -> Seq<ItemType> {
    o.filter(|x: ItemType| x != gone)
}

proof fn lemma_shift_keeps_entry(g: InputHostNetworkGroup, h: InputHostNetworkGroup, x: ItemType, gone: ItemType)
    requires
        in_range(g, x),
        in_range(g, gone),
        x != gone,
        removed_from(g, h, gone),
    ensures
        in_range(h, shifted(x, gone)),
        shown_entry(h, shifted(x, gone)) == shown_entry(g, x),
{
}

/// Deleting an entry that is there keeps the shown order true to the lists:
/// every entry still shown is within its list, and the entries shown are
/// exactly those shown before but the deleted one, in the same order (a
/// later entry of the same list moves up by one).
pub proof fn law_delete_keeps_shown_entries(
    g: InputHostNetworkGroup,
    h: InputHostNetworkGroup,
    o: Seq<ItemType>,
    gone: ItemType,
)
    requires
        order_within(g, o),
        in_range(g, gone),
        removed_from(g, h, gone),
    ensures
        order_within(h, after_removal(o, gone)),
        shown_entries(h, after_removal(o, gone)) == shown_entries(g, order_without(o, gone)),
    decreases o.len(),
{
    reveal(Seq::filter);
    if o.len() > 0 {
        let d = o.drop_last();
        assert forall|k: int| 0 <= k < d.len() implies in_range(g, #[trigger] d[k]) by {
            assert(d[k] == o[k]);
        }
        law_delete_keeps_shown_entries(g, h, d, gone);
        let rest = after_removal(d, gone);
        let l = o.last();
        assert(in_range(g, o[o.len() - 1]));
        assert(order_without(o, gone) == if l != gone {
            order_without(d, gone).push(l)
        } else {
            order_without(d, gone)
        });
        if l != gone {
            lemma_shift_keeps_entry(g, h, l, gone);
            let r = rest.push(shifted(l, gone));
            assert forall|k: int| 0 <= k < r.len() implies in_range(h, #[trigger] r[k]) by {
                if k < rest.len() {
                    assert(r[k] == rest[k]);
                }
            }
            assert(shown_entries(h, r) =~= shown_entries(h, rest).push(shown_entry(h, shifted(l, gone))));
            assert(shown_entries(g, order_without(d, gone).push(l)) =~= shown_entries(
                g,
                order_without(d, gone),
            ).push(shown_entry(g, l)));
        }
    } else {
        assert(shown_entries(h, after_removal(o, gone)) =~= shown_entries(g, order_without(o, gone)));
    }
}

/// Taking a text as an entry: an address not held yet is added to the hosts
/// and shown last, a network not held yet (in a field that takes networks)
/// is added to the networks and shown last, and the shown order stays true
/// to the lists; an address or a network already held is refused and
/// changes nothing.
pub proof fn law_add_entry_shows_it_last(
    t: Seq<char>,
    m: Option<EntryMessage>,
    o: Seq<ItemType>,
    s: HostNetworkInput,
    g: InputHostNetworkGroup,
    h: InputHostNetworkGroup,
    kind: HostNetworkKind,
    r: Option<bool>,
)
    requires
        add_outcome(t, m, o, s, g, h, kind, r),
        order_within(g, o),
    ensures
        (spec_ipv4(t) is Some && !string_views(g.hosts@).contains(t)) ==> {
            &&& r == Some(true)
            &&& string_views(h.hosts@) == string_views(g.hosts@).push(t)
            &&& order_within(h, s.view_order@)
            &&& shown_entries(h, s.view_order@) == shown_entries(g, o).push((0, t, Seq::empty()))
        },
        (spec_ipv4(t) is None && spec_ipv4_net(t) is Some && kind == HostNetworkKind::All
            && !string_views(g.networks@).contains(t)) ==> {
            &&& r == Some(true)
            &&& string_views(h.networks@) == string_views(g.networks@).push(t)
            &&& order_within(h, s.view_order@)
            &&& shown_entries(h, s.view_order@) == shown_entries(g, o).push((1, t, Seq::empty()))
        },
        (spec_ipv4(t) is Some && string_views(g.hosts@).contains(t)) ==> (r == Some(false)
            && h.hosts@ == g.hosts@ && h.networks@ == g.networks@ && h.ranges@ == g.ranges@
            && s.view_order@ == o),
{
    if t.len() > 0 {
        if spec_ipv4(t) is Some && !string_views(g.hosts@).contains(t) {
            let v = s.view_order@;
            assert(entry_of(t) == Some(EntryView::Host(t)));
            assert(v == o.push(ItemType::Host(g.hosts.len())));
            assert(h.networks@ == g.networks@ && h.ranges@ == g.ranges@);
            assert(string_views(h.hosts@).len() == h.hosts@.len());
            assert(h.hosts@.len() == g.hosts@.len() + 1);
            assert forall|k: int| 0 <= k < o.len() implies in_range(h, #[trigger] o[k])
                && shown_entry(h, o[k]) == shown_entry(g, o[k]) by {
                assert(in_range(g, o[k]));
                match o[k] {
                    ItemType::Host(j) => {
                        assert(string_views(h.hosts@)[j as int] == string_views(g.hosts@)[j as int]);
                    },
                    _ => {},
                }
            }
            assert(string_views(h.hosts@)[g.hosts@.len() as int] == t);
            assert forall|k: int| 0 <= k < v.len() implies in_range(h, #[trigger] v[k]) by {
                if k < o.len() {
                    assert(v[k] == o[k]);
                }
            }
            assert(shown_entries(h, v) =~= shown_entries(g, o).push((0, t, Seq::empty())));
        }
        if spec_ipv4(t) is None && spec_ipv4_net(t) is Some && kind == HostNetworkKind::All
            && !string_views(g.networks@).contains(t) {
            let v = s.view_order@;
            assert(entry_of(t) == Some(EntryView::Network(t)));
            assert(!string_views(g.networks@).contains(t));
            assert(v == o.push(ItemType::Network(g.networks.len())));
            assert(h.hosts@ == g.hosts@ && h.ranges@ == g.ranges@);
            assert(string_views(h.networks@).len() == h.networks@.len());
            assert(h.networks@.len() == g.networks@.len() + 1);
            assert forall|k: int| 0 <= k < o.len() implies in_range(h, #[trigger] o[k])
                && shown_entry(h, o[k]) == shown_entry(g, o[k]) by {
                assert(in_range(g, o[k]));
                match o[k] {
                    ItemType::Network(j) => {
                        assert(string_views(h.networks@)[j as int] == string_views(g.networks@)[j as int]);
                    },
                    _ => {},
                }
            }
            assert(string_views(h.networks@)[g.networks@.len() as int] == t);
            assert forall|k: int| 0 <= k < v.len() implies in_range(h, #[trigger] v[k]) by {
                if k < o.len() {
                    assert(v[k] == o[k]);
                }
            }
            assert(shown_entries(h, v) =~= shown_entries(g, o).push((1, t, Seq::empty())));
        }
    }
}

} // verus!