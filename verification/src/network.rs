//! Hosts, networks and address ranges, as users type them.
use vstd::prelude::*;

use crate::ip::{
    format_ipv4, host_key, host_sort_key, law_host_key_follows_address, ipv4_text, is_digit, law_ipv4_parse_canonical, lemma_ipv4_chars,
    law_ipv4_text_parses, lemma_ipv4_text_form, network_key, network_sort_key, parse_ipv4_chars,
    parse_ipv4_net, spec_ipv4, spec_ipv4_net,
};
use crate::sorting::{
    keyed_by, keys_sorted, no_repeats, same_members, sort_dedup_by_key, string_views,
    texts, texts_of,
};
use crate::text::{
    chars_of, is_white_space, lemma_split_once_at, lemma_split_once_none, lemma_split_once_parts,
    lemma_trim_end_take, lemma_trim_keeps,
    lemma_trim_start_skip, owned, split_once, split_once_chars, string_from_chars, trim, trim_chars,
};

verus! {

/// An IP address range with start and end addresses (both inclusive).
#[derive(Clone, PartialEq, Eq)]
pub struct IpRange {
    /// The starting IP address of the range
    pub start: String,
    /// The ending IP address of the range
    pub end: String,
}

/// Different types of network identifiers.
pub enum HostNetwork {
    /// A single host (an IPv4 address)
    Host(String),
    /// A network in CIDR notation (e.g., "192.168.1.0/24")
    Network(String),
    /// An IP address range with start and end addresses
    Range(IpRange),
}

/// The two ends of a range written `a<d>b`, each trimmed, when both are
/// addresses and the first comes before the second.
pub open spec fn range_ends(s: Seq<char>, d: char) -> Option<(Seq<char>, Seq<char>, u32, u32)> {
    match split_once(s, d) {
        Some((a, b)) => match (spec_ipv4(trim(a)), spec_ipv4(trim(b))) {
            (Some(x), Some(y)) => if x < y {
                Some((trim(a), trim(b), x, y))
            } else {
                None
            },
            _ => None,
        },
        None => None,
    }
}

/// Splits at the first `d` and reads both trimmed ends as addresses.
fn range_parts(v: &[char], d: char) -> (r: Option<(Vec<char>, Vec<char>, u32, u32)>)
    ensures
        match r {
            Some((a, b, x, y)) => range_ends(v@, d) == Some((a@, b@, x, y)),
            None => range_ends(v@, d) is None,
        },
{
    match split_once_chars(v, d) {
        Some((a, b)) => {
            let a = trim_chars(a.as_slice());
            let b = trim_chars(b.as_slice());
            match (parse_ipv4_chars(a.as_slice()), parse_ipv4_chars(b.as_slice())) {
                (Some(x), Some(y)) => {
                    if x < y {
                        Some((a, b, x, y))
                    } else {
                        None
                    }
                },
                _ => None,
            }
        },
        None => None,
    }
}

/// The text `a - b`.
pub open spec fn dash_joined(a: Seq<char>, b: Seq<char>) -> Seq<char> {
    a + seq![' ', '-', ' '] + b
}

fn join_dash(a: &[char], b: &[char]) -> (s: String)
    ensures
        s@ == dash_joined(a@, b@),
{
    let mut v: Vec<char> = Vec::new();
    let mut i: usize = 0;
    while i < a.len()
        invariant
            0 <= i <= a@.len(),
            v@ == a@.take(i as int),
        decreases a@.len() - i,
    {
        v.push(a[i]);
        assert(a@.take(i + 1) =~= a@.take(i as int).push(a@[i as int]));
        i = i + 1;
    }
    assert(a@.take(a@.len() as int) =~= a@);
    v.push(' ');
    v.push('-');
    v.push(' ');
    let ghost head = v@;
    let mut j: usize = 0;
    while j < b.len()
        invariant
            0 <= j <= b@.len(),
            v@ == head + b@.take(j as int),
        decreases b@.len() - j,
    {
        v.push(b[j]);
        assert(b@.take(j + 1) =~= b@.take(j as int).push(b@[j as int]));
        j = j + 1;
    }
    assert(b@.take(b@.len() as int) =~= b@);
    assert(v@ =~= dash_joined(a@, b@));
    string_from_chars(v.as_slice())
}

/// Parses a string into a `HostNetwork`: an IPv4 address, then a network in
/// CIDR notation, then a range `start-end` whose trimmed ends are addresses
/// with `start < end`.
pub fn parse_host_network(input: &str) -> (r: Option<HostNetwork>)
    ensures
        spec_ipv4(input@) is Some ==> (r matches Some(HostNetwork::Host(h)) && h@ == input@),
        spec_ipv4(input@) is None && spec_ipv4_net(input@) is Some ==> (r matches Some(
            HostNetwork::Network(n),
        ) && n@ == input@),
        spec_ipv4(input@) is None && spec_ipv4_net(input@) is None ==> match range_ends(
            input@,
            '-',
        ) {
            Some((_, _, x, y)) => r matches Some(HostNetwork::Range(g)) && g.start@ == ipv4_text(x)
                && g.end@ == ipv4_text(y),
            None => r is None,
        },
{
    let v = chars_of(input);
    if parse_ipv4_chars(v.as_slice()).is_some() {
        return Some(HostNetwork::Host(owned(input)));
    }
    if parse_ipv4_net(input).is_some() {
        return Some(HostNetwork::Network(owned(input)));
    }
    match range_parts(v.as_slice(), '-') {
        Some((_, _, x, y)) => Some(
            HostNetwork::Range(IpRange { start: format_ipv4(x), end: format_ipv4(y) }),
        ),
        None => None,
    }
}

/// The normalized text of a range `a<d>b`: `a - b` with both ends trimmed.
fn validate_ip_range(v: &[char], d: char) -> (r: Option<String>)
    ensures
        match range_ends(v@, d) {
            Some((a, b, _, _)) => r matches Some(s) && s@ == dash_joined(a, b),
            None => r is None,
        },
{
    match range_parts(v, d) {
        Some((a, b, _, _)) => Some(join_dash(a.as_slice(), b.as_slice())),
        None => None,
    }
}

/// What `validate_host_network` answers for a text.
pub open spec fn host_network_validation(s: Seq<char>) -> (bool, Option<Seq<char>>) {
    if spec_ipv4(s) is Some || spec_ipv4_net(s) is Some {
        (true, None)
    } else if let Some((a, b, _, _)) = range_ends(s, '~') {
        (true, Some(dash_joined(a, b)))
    } else if let Some((a, b, _, _)) = range_ends(s, '-') {
        (true, Some(dash_joined(a, b)))
    } else if let Some((a, b, _, _)) = range_ends(s, ' ') {
        (true, Some(dash_joined(a, b)))
    } else {
        (false, None)
    }
}

/// The range from the address `x` to `y`, written `x - y`, read back with
/// the dash: its two ends and addresses.
proof fn lemma_dash_joined_ends(x: u32, y: u32)
    requires
        x < y,
    ensures
        range_ends(dash_joined(ipv4_text(x), ipv4_text(y)), '-') == Some(
            (ipv4_text(x), ipv4_text(y), x, y),
        ),
        forall|k: int|
            0 <= k < dash_joined(ipv4_text(x), ipv4_text(y)).len() ==> #[trigger] dash_joined(
                ipv4_text(x),
                ipv4_text(y),
            )[k] != '~',
        dash_joined(ipv4_text(x), ipv4_text(y))[ipv4_text(x).len() as int] == ' ',
{
    let a = ipv4_text(x);
    let b = ipv4_text(y);
    let t = dash_joined(a, b);
    lemma_ipv4_text_form(x);
    lemma_ipv4_text_form(y);
    law_ipv4_text_parses(x);
    law_ipv4_text_parses(y);
    let i = a.len() as int + 1;
    assert(t[i] == '-');
    assert forall|k: int| 0 <= k < i implies #[trigger] t[k] != '-' by {
        if k < a.len() {
            assert(t[k] == a[k]);
        }
    }
    assert forall|k: int| 0 <= k < t.len() implies #[trigger] t[k] != '~' by {
        if k < a.len() {
            assert(t[k] == a[k]);
        } else if k >= a.len() + 3 {
            assert(t[k] == b[k - a.len() - 3]);
        }
    }
    lemma_split_once_at(t, '-', i);
    let left = t.take(i);
    let right = t.skip(i + 1);
    assert(left =~= a.push(' '));
    assert(right =~= seq![' '] + b);
    lemma_trim_start_skip(left, 0);
    assert(left.skip(0) =~= left);
    lemma_trim_end_take(left, a.len() as int);
    assert(left.take(a.len() as int) =~= a);
    assert(is_white_space(right[0]));
    lemma_trim_start_skip(right, 1);
    assert(right.skip(1) =~= b);
    lemma_trim_end_take(b, b.len() as int);
    assert(b.take(b.len() as int) =~= b);
}

/// A text split at `~` into two addresses holds no `-`.
proof fn lemma_tilde_range_has_no_dash(s: Seq<char>)
    requires
        range_ends(s, '~') is Some,
    ensures
        !s.contains('-'),
{
    let (a, b) = split_once(s, '~').unwrap();
    lemma_split_once_parts(s, '~');
    lemma_ipv4_chars(trim(a));
    lemma_ipv4_chars(trim(b));
    if s.contains('-') {
        let k = choose|k: int| 0 <= k < s.len() && s[k] == '-';
        assert(!is_white_space('-'));
        if k < a.len() {
            assert(a[k] == '-');
            lemma_trim_keeps(a, k);
            let j = choose|j: int| 0 <= j < trim(a).len() && trim(a)[j] == '-';
            assert(is_digit(trim(a)[j]) || trim(a)[j] == '.');
        } else if k == a.len() {
            assert(s[k] == '~');
        } else {
            assert(b[k - a.len() - 1] == '-');
            lemma_trim_keeps(b, k - a.len() - 1);
            let j = choose|j: int| 0 <= j < trim(b).len() && trim(b)[j] == '-';
            assert(is_digit(trim(b)[j]) || trim(b)[j] == '.');
        }
    }
}

/// Every text `parse_host_network` accepts also validates, and a range it
/// reads is given back by validation as the text `start - end` of the range
/// it reads (the range as `IpRange::to_string` writes it).
pub proof fn law_parsed_host_network_validates(s: Seq<char>)
    ensures
        (spec_ipv4(s) is Some || spec_ipv4_net(s) is Some || range_ends(s, '-') is Some)
            ==> host_network_validation(s).0,
        (spec_ipv4(s) is None && spec_ipv4_net(s) is None && range_ends(s, '-') is Some) ==> (
        range_ends(s, '-') matches Some((_, _, x, y)) && host_network_validation(s).1 == Some(
            dash_joined(ipv4_text(x), ipv4_text(y)),
        )),
{
    if spec_ipv4(s) is None && spec_ipv4_net(s) is None && range_ends(s, '-') is Some {
        let (a, b, x, y) = range_ends(s, '-').unwrap();
        let (a0, b0) = split_once(s, '-').unwrap();
        lemma_split_once_parts(s, '-');
        assert(s[a0.len() as int] == '-');
        if range_ends(s, '~') is Some {
            lemma_tilde_range_has_no_dash(s);
        }
        law_ipv4_parse_canonical(a);
        law_ipv4_parse_canonical(b);
    }
}

/// A range that validation normalizes validates again to the same text:
/// normalizing is stable. (The text is assumed not to read as a network,
/// which `ipnet` decides.)
pub proof fn law_normalized_range_is_stable(s: Seq<char>, t: Seq<char>)
    requires
        host_network_validation(s).1 == Some(t),
        spec_ipv4_net(t) is None,
    ensures
        host_network_validation(t) == (true, Some(t)),
{
    let ends = if let Some(e) = range_ends(s, '~') {
        e
    } else if let Some(e) = range_ends(s, '-') {
        e
    } else {
        range_ends(s, ' ').unwrap()
    };
    let (a, b, x, y) = ends;
    law_ipv4_parse_canonical(a);
    law_ipv4_parse_canonical(b);
    assert(a == ipv4_text(x) && b == ipv4_text(y));
    assert(t == dash_joined(a, b));
    lemma_dash_joined_ends(x, y);
    if spec_ipv4(t) is Some {
        law_ipv4_parse_canonical(t);
        lemma_ipv4_text_form(spec_ipv4(t).unwrap());
        assert(t[a.len() as int] == ' ');
    }
    lemma_split_once_none(t, '~');
}

/// Validates a host, network or range. A range, written with `~`, `-` or a
/// space between its ends, comes back normalized as `start - end`.
pub fn validate_host_network(input: &str) -> (r: (bool, Option<String>))
    ensures
        r.0 == host_network_validation(input@).0,
        match host_network_validation(input@).1 {
            Some(t) => r.1 matches Some(s) && s@ == t,
            None => r.1 is None,
        },
{
    let v = chars_of(input);
    if parse_ipv4_chars(v.as_slice()).is_some() {
        return (true, None);
    }
    if parse_ipv4_net(input).is_some() {
        return (true, None);
    }
    if let Some(range) = validate_ip_range(v.as_slice(), '~') {
        return (true, Some(range));
    }
    if let Some(range) = validate_ip_range(v.as_slice(), '-') {
        return (true, Some(range));
    }
    if let Some(range) = validate_ip_range(v.as_slice(), ' ') {
        return (true, Some(range));
    }
    (false, None)
}

/// Sorted by `key_of`.
pub open spec fn sorted_by(v: Seq<Seq<char>>, key_of: spec_fn(Seq<char>) -> u64) -> bool {
    forall|i: int, j: int| 0 <= i < j < v.len() ==> key_of(v[i]) <= key_of(v[j])
}

/// Pairs each text with the key that `key_of` gives it.
fn keyed(v: &Vec<String>, hosts: bool) -> (r: Vec<(u64, String)>)
    ensures
        keyed_by(r@, if hosts { |s: Seq<char>| host_key(s) } else { |s: Seq<char>| network_key(s) }),
        texts(r@) == string_views(v@),
{
    let ghost key_of = if hosts { |s: Seq<char>| host_key(s) } else { |s: Seq<char>| network_key(s) };
    let n = v.len();
    let mut r: Vec<(u64, String)> = Vec::new();
    let mut i: usize = 0;
    while i < n
        invariant
            0 <= i <= n,
            n == v@.len(),
            key_of == (if hosts { |s: Seq<char>| host_key(s) } else { |s: Seq<char>| network_key(s) }),
            keyed_by(r@, key_of),
            texts(r@) == string_views(v@.take(i as int)),
        decreases n - i,
    {
        let k = if hosts { host_sort_key(v[i].as_str()) } else { network_sort_key(v[i].as_str()) };
        let ghost prev = r@;
        r.push((k, v[i].clone()));
        assert(texts(r@) =~= texts(prev).push(v@[i as int]@));
        assert(string_views(v@.take(i + 1)) =~= string_views(v@.take(i as int)).push(v@[i as int]@));
        i = i + 1;
    }
    assert(v@.take(n as int) =~= v@);
    r
}

fn sort_dedup_strings(v: &mut Vec<String>, hosts: bool)
    ensures
        sorted_by(string_views(final(v)@), if hosts { |s: Seq<char>| host_key(s) } else { |s: Seq<char>| network_key(s) }),
        no_repeats(string_views(final(v)@)),
        same_members(string_views(final(v)@), string_views(old(v)@)),
{
    let ghost key_of = if hosts { |s: Seq<char>| host_key(s) } else { |s: Seq<char>| network_key(s) };
    let pairs = keyed(v, hosts);
    let sorted = sort_dedup_by_key(pairs, Ghost(key_of));
    let ghost sp = sorted@;
    let result = texts_of(sorted);
    proof {
        let r = string_views(result@);
        assert(r =~= texts(sp));
        assert forall|i: int, j: int| 0 <= i < j < r.len() implies key_of(r[i]) <= key_of(r[j]) by {
            assert(r[i] == texts(sp)[i]);
            assert(r[j] == texts(sp)[j]);
            assert(sp[i].0 == key_of(sp[i].1@));
            assert(sp[j].0 == key_of(sp[j].1@));
        }
    }
    *v = result;
}

/// Hosts sorted by `sort_hosts`'s key are in ascending address order: of
/// two addresses, the one further on is not lower.
pub proof fn law_sorted_hosts_ascend(v: Seq<Seq<char>>, i: int, j: int)
    requires
        sorted_by(v, |s: Seq<char>| host_key(s)),
        0 <= i < j < v.len(),
        spec_ipv4(v[i]) is Some,
        spec_ipv4(v[j]) is Some,
    ensures
        spec_ipv4(v[i]).unwrap() <= spec_ipv4(v[j]).unwrap(),
{
    law_host_key_follows_address(v[j], v[i]);
}

/// Sorts host addresses in ascending order of address and removes
/// duplicates. A text that is no address sorts as `0.0.0.0`; among equal keys
/// the order is not fixed.
pub fn sort_hosts(hosts: &mut Vec<String>)
    ensures
        sorted_by(string_views(final(hosts)@), |s: Seq<char>| host_key(s)),
        no_repeats(string_views(final(hosts)@)),
        same_members(string_views(final(hosts)@), string_views(old(hosts)@)),
{
    sort_dedup_strings(hosts, true);
}

/// Sorts networks in ascending order (address, then prefix length) and removes
/// duplicates. A text that is no network sorts as `0.0.0.0/32`; among
/// equal keys the order is not fixed.
pub fn sort_networks(networks: &mut Vec<String>)
    ensures
        sorted_by(string_views(final(networks)@), |s: Seq<char>| network_key(s)),
        no_repeats(string_views(final(networks)@)),
        same_members(string_views(final(networks)@), string_views(old(networks)@)),
{
    sort_dedup_strings(networks, false);
}

impl Default for IpRange {
    fn default() -> (r: Self)
        ensures
            r.start@.len() == 0 && r.end@.len() == 0,
    {
        IpRange { start: String::new(), end: String::new() }
    }
}

impl IpRange {
    /// The range written as `start - end`.
    pub fn to_string(&self) -> (s: String)
        ensures
            s@ == dash_joined(self.start@, self.end@),
    {
        let a = chars_of(self.start.as_str());
        let b = chars_of(self.end.as_str());
        join_dash(a.as_slice(), b.as_slice())
    }
}

/// Both ends are addresses and the start comes before the end.
pub open spec fn range_is_valid(g: IpRange) -> bool {
    g.bounds() matches Some((s, e)) && s < e
}

/// Every host is an address, every network a network, every range valid.
pub open spec fn group_valid(hosts: Seq<String>, networks: Seq<String>, ranges: Seq<IpRange>) -> bool {
    &&& forall|i: int| 0 <= i < hosts.len() ==> spec_ipv4(#[trigger] hosts[i]@) is Some
    &&& forall|i: int| 0 <= i < networks.len() ==> spec_ipv4_net(#[trigger] networks[i]@) is Some
    &&& forall|i: int| 0 <= i < ranges.len() ==> range_is_valid(#[trigger] ranges[i])
}

/// Hosts, then networks, then ranges written as `start - end`.
pub open spec fn group_texts(hosts: Seq<String>, networks: Seq<String>, ranges: Seq<IpRange>) -> Seq<Seq<char>> {
    string_views(hosts) + string_views(networks) + ranges.map_values(|r: IpRange| dash_joined(r.start@, r.end@))
}

fn group_is_valid(hosts: &Vec<String>, networks: &Vec<String>, ranges: &Vec<IpRange>) -> (b: bool)
    ensures
        b == group_valid(hosts@, networks@, ranges@),
{
    let mut i: usize = 0;
    while i < hosts.len()
        invariant
            0 <= i <= hosts@.len(),
            forall|k: int| 0 <= k < i ==> spec_ipv4(#[trigger] hosts@[k]@) is Some,
        decreases hosts@.len() - i,
    {
        if crate::ip::parse_ipv4(hosts[i].as_str()).is_none() {
            return false;
        }
        i = i + 1;
    }
    let mut i: usize = 0;
    while i < networks.len()
        invariant
            0 <= i <= networks@.len(),
            forall|k: int| 0 <= k < i ==> spec_ipv4_net(#[trigger] networks@[k]@) is Some,
        decreases networks@.len() - i,
    {
        if parse_ipv4_net(networks[i].as_str()).is_none() {
            return false;
        }
        i = i + 1;
    }
    let mut i: usize = 0;
    while i < ranges.len()
        invariant
            0 <= i <= ranges@.len(),
            forall|k: int| 0 <= k < i ==> range_is_valid(#[trigger] ranges@[k]),
        decreases ranges@.len() - i,
    {
        if !ranges[i].is_valid() {
            return false;
        }
        i = i + 1;
    }
    true
}

fn group_to_string_vec(hosts: &Vec<String>, networks: &Vec<String>, ranges: &Vec<IpRange>) -> (r: Vec<String>)
    ensures
        string_views(r@) == group_texts(hosts@, networks@, ranges@),
{
    let mut r: Vec<String> = Vec::new();
    let mut i: usize = 0;
    while i < hosts.len()
        invariant
            0 <= i <= hosts@.len(),
            string_views(r@) == string_views(hosts@.take(i as int)),
        decreases hosts@.len() - i,
    {
        let ghost prev = r@;
        r.push(hosts[i].clone());
        assert(string_views(r@) =~= string_views(prev).push(hosts@[i as int]@));
        assert(string_views(hosts@.take(i + 1)) =~= string_views(hosts@.take(i as int)).push(hosts@[i as int]@));
        i = i + 1;
    }
    assert(hosts@.take(hosts@.len() as int) =~= hosts@);
    let ghost after_hosts = string_views(r@);
    let mut i: usize = 0;
    while i < networks.len()
        invariant
            0 <= i <= networks@.len(),
            string_views(r@) == after_hosts + string_views(networks@.take(i as int)),
        decreases networks@.len() - i,
    {
        let ghost prev = r@;
        r.push(networks[i].clone());
        assert(string_views(r@) =~= string_views(prev).push(networks@[i as int]@));
        assert(string_views(networks@.take(i + 1)) =~= string_views(networks@.take(i as int)).push(networks@[i as int]@));
        i = i + 1;
    }
    assert(networks@.take(networks@.len() as int) =~= networks@);
    let ghost after_networks = string_views(r@);
    let ghost f = |g: IpRange| dash_joined(g.start@, g.end@);
    let mut i: usize = 0;
    while i < ranges.len()
        invariant
            0 <= i <= ranges@.len(),
            f == (|g: IpRange| dash_joined(g.start@, g.end@)),
            string_views(r@) == after_networks + ranges@.take(i as int).map_values(f),
        decreases ranges@.len() - i,
    {
        let ghost prev = r@;
        r.push(ranges[i].to_string());
        assert(string_views(r@) =~= string_views(prev).push(f(ranges@[i as int])));
        assert(ranges@.take(i + 1).map_values(f) =~= ranges@.take(i as int).map_values(f).push(f(ranges@[i as int])));
        i = i + 1;
    }
    assert(ranges@.take(ranges@.len() as int) =~= ranges@);
    assert(string_views(r@) =~= group_texts(hosts@, networks@, ranges@));
    r
}

/// A collection of network identifiers: hosts, networks and ranges.
#[derive(Clone, PartialEq, Eq)]
pub struct NetworkGroup {
    /// Individual host IP addresses
    pub hosts: Vec<String>,
    /// Network addresses in CIDR notation
    pub networks: Vec<String>,
    /// IP address ranges
    pub ranges: Vec<IpRange>,
}

impl NetworkGroup {
    /// Whether every host, network and range is well-formed.
    pub fn is_valid(&self) -> (b: bool)
        ensures
            b == group_valid(self.hosts@, self.networks@, self.ranges@),
    {
        group_is_valid(&self.hosts, &self.networks, &self.ranges)
    }

    /// Hosts, networks and ranges as one list of texts.
    pub fn to_string_vec(&self) -> (r: Vec<String>)
        ensures
            string_views(r@) == group_texts(self.hosts@, self.networks@, self.ranges@),
    {
        group_to_string_vec(&self.hosts, &self.networks, &self.ranges)
    }
}

/// The hosts, networks and ranges a user has entered.
#[derive(Clone, PartialEq, Eq)]
pub struct InputHostNetworkGroup {
    pub hosts: Vec<String>,
    pub networks: Vec<String>,
    pub ranges: Vec<IpRange>,
}

impl InputHostNetworkGroup {
    /// An empty group.
    pub fn new() -> (g: Self)
        ensures
            g.hosts@.len() == 0 && g.networks@.len() == 0 && g.ranges@.len() == 0,
    {
        InputHostNetworkGroup { hosts: Vec::new(), networks: Vec::new(), ranges: Vec::new() }
    }

    /// Whether the group holds nothing.
    pub fn is_empty(&self) -> (b: bool)
        ensures
            b == (self.hosts@.len() == 0 && self.networks@.len() == 0 && self.ranges@.len() == 0),
    {
        self.hosts.is_empty() && self.networks.is_empty() && self.ranges.is_empty()
    }

    /// Removes everything.
    pub fn clear(&mut self)
        ensures
            final(self).hosts@.len() == 0 && final(self).networks@.len() == 0 && final(self).ranges@.len() == 0,
    {
        self.hosts.clear();
        self.networks.clear();
        self.ranges.clear();
    }

    /// Whether every host, network and range is well-formed.
    pub fn is_valid(&self) -> (b: bool)
        ensures
            b == group_valid(self.hosts@, self.networks@, self.ranges@),
    {
        group_is_valid(&self.hosts, &self.networks, &self.ranges)
    }

    /// Hosts, networks and ranges as one list of texts.
    pub fn to_string_vec(&self) -> (r: Vec<String>)
        ensures
            string_views(r@) == group_texts(self.hosts@, self.networks@, self.ranges@),
    {
        group_to_string_vec(&self.hosts, &self.networks, &self.ranges)
    }
}

impl Default for InputHostNetworkGroup {
    fn default() -> (g: Self)
        ensures
            g.hosts@.len() == 0 && g.networks@.len() == 0 && g.ranges@.len() == 0,
    {
        InputHostNetworkGroup::new()
    }
}

/// Reads what a user typed into the range input: `start~end` gives both ends
/// trimmed (when both are addresses); otherwise the trimmed text must be an
/// address, which becomes the start, with an empty end.
pub fn check_input(input: &str) -> (r: Option<IpRange>)
    ensures
        match split_once(input@, '~') {
            Some((a, b)) => if spec_ipv4(trim(a)) is Some && spec_ipv4(trim(b)) is Some {
                r matches Some(g) && g.start@ == trim(a) && g.end@ == trim(b)
            } else {
                r is None
            },
            None => match spec_ipv4(trim(input@)) {
                Some(x) => r matches Some(g) && g.start@ == ipv4_text(x) && g.end@.len() == 0,
                None => r is None,
            },
        },
{
    let v = chars_of(input);
    match split_once_chars(v.as_slice(), '~') {
        Some((a, b)) => {
            let a = trim_chars(a.as_slice());
            let b = trim_chars(b.as_slice());
            if parse_ipv4_chars(a.as_slice()).is_some() && parse_ipv4_chars(b.as_slice()).is_some() {
                Some(IpRange { start: string_from_chars(a.as_slice()), end: string_from_chars(b.as_slice()) })
            } else {
                None
            }
        },
        None => {
            let t = trim_chars(v.as_slice());
            match parse_ipv4_chars(t.as_slice()) {
                Some(x) => Some(IpRange { start: format_ipv4(x), end: String::new() }),
                None => None,
            }
        },
    }
}

/// What is typed into the range input reads as a range or an address.
pub open spec fn range_input_readable(s: Seq<char>) -> bool {
    match split_once(s, '~') {
        Some((a, b)) => spec_ipv4(trim(a)) is Some && spec_ipv4(trim(b)) is Some,
        None => spec_ipv4(trim(s)) is Some,
    }
}

/// Whether what is typed into the range input is shown as acceptable:
/// nothing typed yet, or a text that reads as a range or an address.
pub fn input_is_acceptable(input: &str) -> (b: bool)
    ensures
        b == (input@.len() == 0 || range_input_readable(input@)),
{
    input.is_empty() || check_input(input).is_some()
}

} // verus!
