//! IPv4 addresses and IPv4 networks in their textual forms.
//!
//! An address is written as four decimal fields separated by dots, each field
//! at most three digits, without a leading zero, and at most 255 (the grammar
//! of `Ipv4Addr`'s `FromStr`). A network is an address, a slash and a prefix
//! length, as the `ipnet` crate reads it.
use vstd::prelude::*;

use crate::text::{chars_of, decimal, decimal_chars, string_from_chars};

verus! {

pub open spec fn is_digit(c: char) -> bool {
    '0' <= c && c <= '9'
}

pub open spec fn digit_value(c: char) -> nat {
    (c as int - 48) as nat
}

pub open spec fn all_digits(s: Seq<char>) -> bool {
    forall|i: int| 0 <= i < s.len() ==> is_digit(#[trigger] s[i])
}

/// The value of a string of decimal digits.
pub open spec fn digits_value(s: Seq<char>) -> nat
    decreases s.len(),
{
    if s.len() == 0 {
        0
    } else {
        digits_value(s.drop_last()) * 10 + digit_value(s.last())
    }
}

/// The pieces of `s` between the occurrences of `d` (as `str::split` gives them).
pub open spec fn split_on(s: Seq<char>, d: char) -> Seq<Seq<char>>
    decreases s.len(),
{
    if s.len() == 0 {
        seq![Seq::empty()]
    } else {
        let p = split_on(s.drop_last(), d);
        if s.last() == d {
            p.push(Seq::empty())
        } else {
            p.update(p.len() - 1, p.last().push(s.last()))
        }
    }
}

/// A field of an address as `Ipv4Addr` accepts it: one to three digits,
/// no leading zero, at most 255.
pub open spec fn strict_octet(f: Seq<char>) -> bool {
    &&& 1 <= f.len() <= 3
    &&& all_digits(f)
    &&& (f.len() > 1 ==> f[0] != '0')
    &&& digits_value(f) < 256
}

/// A field of an address as `ipnet` accepts it: one to three digits, at most 255.
pub open spec fn lenient_octet(f: Seq<char>) -> bool {
    &&& 1 <= f.len() <= 3
    &&& all_digits(f)
    &&& digits_value(f) < 256
}

/// The address that four fields denote, most significant first.
pub open spec fn quad_value(f: Seq<Seq<char>>) -> nat {
    ((digits_value(f[0]) * 256 + digits_value(f[1])) * 256 + digits_value(f[2])) * 256
        + digits_value(f[3])
}

/// The address that `s` denotes, if `s` is an IPv4 address in dotted-quad form.
pub open spec fn spec_ipv4(s: Seq<char>) -> Option<u32> {
    let f = split_on(s, '.');
    if f.len() == 4 && strict_octet(f[0]) && strict_octet(f[1]) && strict_octet(f[2])
        && strict_octet(f[3]) {
        Some(quad_value(f) as u32)
    } else {
        None
    }
}

/// The prefix length of a network: one or two digits, at most 32.
pub open spec fn prefix_field(f: Seq<char>) -> bool {
    &&& 1 <= f.len() <= 2
    &&& all_digits(f)
    &&& digits_value(f) <= 32
}

/// Address and prefix length of `s`, if `s` is an IPv4 network as `ipnet` reads it.
pub open spec fn spec_ipv4_net(s: Seq<char>) -> Option<(u32, u8)> {
    let p = split_on(s, '/');
    let f = split_on(p[0], '.');
    if p.len() == 2 && f.len() == 4 && lenient_octet(f[0]) && lenient_octet(f[1])
        && lenient_octet(f[2]) && lenient_octet(f[3]) && prefix_field(p[1]) {
        Some((quad_value(f) as u32, digits_value(p[1]) as u8))
    } else {
        None
    }
}

/// The view of each piece.
pub open spec fn views(v: Seq<Vec<char>>) -> Seq<Seq<char>> {
    v.map_values(|x: Vec<char>| x@)
}

/// Splits the characters at every `d`.
pub fn split_chars(v: &[char], d: char) -> (r: Vec<Vec<char>>)
    ensures
        views(r@) == split_on(v@, d),
{
    let n = v.len();
    let mut parts: Vec<Vec<char>> = Vec::new();
    parts.push(Vec::new());
    assert(views(parts@) =~= split_on(v@.take(0), d));
    let mut i: usize = 0;
    while i < n
        invariant
            0 <= i <= n,
            n == v@.len(),
            views(parts@) == split_on(v@.take(i as int), d),
            parts@.len() >= 1,
        decreases n - i,
    {
        let c = v[i];
        let ghost prev = views(parts@);
        assert(v@.take(i + 1).drop_last() =~= v@.take(i as int));
        assert(v@.take(i + 1).last() == c);
        if c == d {
            parts.push(Vec::new());
            assert(views(parts@) =~= prev.push(Seq::empty()));
        } else {
            let mut last = parts.pop().unwrap();
            last.push(c);
            parts.push(last);
            assert(views(parts@) =~= prev.update(prev.len() - 1, prev.last().push(c)));
        }
        i = i + 1;
    }
    assert(v@.take(n as int) =~= v@);
    parts
}

proof fn lemma_digits_value_bound(s: Seq<char>)
    requires
        all_digits(s),
    ensures
        s.len() <= 3 ==> digits_value(s) < 1000,
        s.len() <= 2 ==> digits_value(s) < 100,
        s.len() <= 1 ==> digits_value(s) < 10,
    decreases s.len(),
{
    if s.len() > 0 {
        assert(is_digit(s[s.len() - 1]));
        lemma_digits_value_bound(s.drop_last());
    }
}

/// The value of a field of at most `max_len` digits, where `strict` forbids a
/// leading zero, when that value is below `bound`.
fn field_value(f: &[char], max_len: usize, strict: bool, bound: u32) -> (r: Option<u32>)
    requires
        1 <= max_len <= 3,
        bound <= 1000,
    ensures
        r == (if 1 <= f@.len() <= max_len && all_digits(f@) && (strict && f@.len() > 1 ==> f@[0]
            != '0') && digits_value(f@) < bound {
            Some(digits_value(f@) as u32)
        } else {
            None
        }),
{
    let n = f.len();
    if n < 1 || n > max_len {
        return None;
    }
    if strict && n > 1 && f[0] == '0' {
        return None;
    }
    let mut val: u32 = 0;
    let mut i: usize = 0;
    while i < n
        invariant
            0 <= i <= n <= 3,
            n == f@.len(),
            all_digits(f@.take(i as int)),
            val == digits_value(f@.take(i as int)),
            val < 1000,
        decreases n - i,
    {
        let c = f[i];
        if !('0' <= c && c <= '9') {
            return None;
        }
        let ghost t = f@.take(i + 1);
        assert(t.drop_last() =~= f@.take(i as int));
        proof {
            lemma_digits_value_bound(t);
        }
        let d: u32 = (c as u32) - 48;
        val = val * 10 + d;
        i = i + 1;
    }
    assert(f@.take(n as int) =~= f@);
    if val < bound {
        Some(val)
    } else {
        None
    }
}

/// Parses an IPv4 address given as characters.
pub fn parse_ipv4_chars(v: &[char]) -> (r: Option<u32>)
    ensures
        r == spec_ipv4(v@),
{
    let f = split_chars(v, '.');
    if f.len() != 4 {
        return None;
    }
    assert(views(f@)[0] == f@[0]@);
    assert(views(f@)[1] == f@[1]@);
    assert(views(f@)[2] == f@[2]@);
    assert(views(f@)[3] == f@[3]@);
    let a = match field_value(f[0].as_slice(), 3, true, 256) {
        Some(x) => x,
        None => return None,
    };
    let b = match field_value(f[1].as_slice(), 3, true, 256) {
        Some(x) => x,
        None => return None,
    };
    let c = match field_value(f[2].as_slice(), 3, true, 256) {
        Some(x) => x,
        None => return None,
    };
    let d = match field_value(f[3].as_slice(), 3, true, 256) {
        Some(x) => x,
        None => return None,
    };
    Some(((a * 256 + b) * 256 + c) * 256 + d)
}

/// Parses an IPv4 address in dotted-quad form (the grammar of `Ipv4Addr::from_str`).
pub fn parse_ipv4(s: &str) -> (r: Option<u32>)
    ensures
        r == spec_ipv4(s@),
{
    let v = chars_of(s);
    parse_ipv4_chars(v.as_slice())
}

/// `ipnet::Ipv4Net::from_str`: address and prefix length of a network in the
/// form `a.b.c.d/n`. `ipnet`'s parser reads one to three digits per field
/// (leading zeros allowed) below 256, a slash, then one or two digits below 33,
/// and nothing after them; the network keeps the address as written.
#[verifier::external_body]
fn ipnet_v4_from_str(s: &str) -> (r: Option<(u32, u8)>)
    ensures
        r == spec_ipv4_net(s@),
{
    match s.parse::<ipnet::Ipv4Net>() {
        Ok(n) => Some((u32::from(n.addr()), n.prefix_len())),
        Err(_) => None,
    }
}

/// Address and prefix length of an IPv4 network such as `192.168.1.0/24`.
pub fn parse_ipv4_net(s: &str) -> (r: Option<(u32, u8)>)
    ensures
        r == spec_ipv4_net(s@),
{
    ipnet_v4_from_str(s)
}

/// The dotted-quad text of an address, as `Ipv4Addr`'s `Display` writes it.
pub open spec fn ipv4_text(a: u32) -> Seq<char> {
    decimal((a / 0x1000000) as nat) + seq!['.'] + decimal(((a / 0x10000) % 256) as nat) + seq![
        '.',
    ] + decimal(((a / 0x100) % 256) as nat) + seq!['.'] + decimal((a % 256) as nat)
}

/// Writes an address in dotted-quad form.
pub fn format_ipv4(a: u32) -> (s: String)
    ensures
        s@ == ipv4_text(a),
{
    let mut v = decimal_chars(a / 0x1000000);
    v.push('.');
    let mut w = decimal_chars((a / 0x10000) % 256);
    v.append(&mut w);
    v.push('.');
    let mut w = decimal_chars((a / 0x100) % 256);
    v.append(&mut w);
    v.push('.');
    let mut w = decimal_chars(a % 256);
    v.append(&mut w);
    let s = string_from_chars(v.as_slice());
    assert(s@ =~= ipv4_text(a));
    s
}

/// The position of a host in the order `sort_hosts` uses: its address, and
/// 0 (the address `0.0.0.0`) for a text that is no address.
pub open spec fn host_key(s: Seq<char>) -> u64 {
    match spec_ipv4(s) {
        Some(a) => a as u64,
        None => 0,
    }
}

/// The position of a network in the order `sort_networks` uses: address first,
/// then prefix length (the order of `Ipv4Net`), and `0.0.0.0/32` for a text
/// that is no network.
pub open spec fn network_key(s: Seq<char>) -> u64 {
    match spec_ipv4_net(s) {
        Some((a, p)) => (a as u64 * 64 + p as u64) as u64,
        None => 32,
    }
}

pub fn host_sort_key(s: &str) -> (k: u64)
    ensures
        k == host_key(s@),
{
    match parse_ipv4(s) {
        Some(a) => a as u64,
        None => 0,
    }
}

pub fn network_sort_key(s: &str) -> (k: u64)
    ensures
        k == network_key(s@),
{
    match parse_ipv4_net(s) {
        Some((a, p)) => a as u64 * 64 + p as u64,
        None => 32,
    }
}

/// The pieces joined back with `d` between them.
pub open spec fn join_on(parts: Seq<Seq<char>>, d: char) -> Seq<char>
    decreases parts.len(),
{
    if parts.len() == 0 {
        Seq::empty()
    } else if parts.len() == 1 {
        parts[0]
    } else {
        join_on(parts.drop_last(), d) + seq![d] + parts.last()
    }
}

proof fn lemma_split_on_nonempty(s: Seq<char>, d: char)
    ensures
        split_on(s, d).len() >= 1,
    decreases s.len(),
{
    if s.len() > 0 {
        lemma_split_on_nonempty(s.drop_last(), d);
    }
}

/// Splitting and joining again gives the text back.
proof fn lemma_join_split(s: Seq<char>, d: char)
    ensures
        join_on(split_on(s, d), d) == s,
    decreases s.len(),
{
    if s.len() == 0 {
    } else {
        let t = s.drop_last();
        let p = split_on(t, d);
        lemma_join_split(t, d);
        lemma_split_on_nonempty(t, d);
        if s.last() == d {
            let q = p.push(Seq::<char>::empty());
            assert(q.drop_last() =~= p);
            assert(join_on(q, d) =~= s);
        } else {
            let q = p.update(p.len() - 1, p.last().push(s.last()));
            if p.len() == 1 {
                assert(join_on(p, d) == p[0]);
                assert(q.len() == 1);
                assert(q[0] == p[0].push(s.last()));
                assert(join_on(q, d) == q[0]);
                assert(p[0] == t);
                assert(s =~= t.push(s.last()));
                assert(q[0] =~= s);
                assert(join_on(q, d) == s);
            } else {
                assert(q.drop_last() =~= p.drop_last());
                assert(join_on(p, d) == join_on(p.drop_last(), d) + seq![d] + p.last());
                assert(q.last() == p.last().push(s.last()));
                assert(join_on(q, d) == join_on(q.drop_last(), d) + seq![d] + q.last());
                assert(s =~= t.push(s.last()));
                assert(join_on(q, d) =~= s);
            }
        }
    }
}

/// Appending text without `d` extends the last piece.
proof fn lemma_split_on_append(x: Seq<char>, y: Seq<char>, d: char)
    requires
        !y.contains(d),
    ensures
        split_on(x + y, d) == split_on(x, d).update(
            split_on(x, d).len() - 1,
            split_on(x, d).last() + y,
        ),
    decreases y.len(),
{
    lemma_split_on_nonempty(x, d);
    if y.len() == 0 {
        assert(x + y =~= x);
        assert(split_on(x, d).last() + y =~= split_on(x, d).last());
        assert(split_on(x, d).update(split_on(x, d).len() - 1, split_on(x, d).last())
            =~= split_on(x, d));
    } else {
        let y0 = y.drop_last();
        assert(!y0.contains(d)) by {
            if y0.contains(d) {
                let k = choose|k: int| 0 <= k < y0.len() && y0[k] == d;
                assert(y[k] == d);
            }
        }
        assert(y[y.len() - 1] != d);
        lemma_split_on_append(x, y0, d);
        assert((x + y).drop_last() =~= x + y0);
        assert((x + y).last() == y.last());
        let p = split_on(x, d);
        let p1 = split_on(x + y0, d);
        assert(p1 == p.update(p.len() - 1, p.last() + y0));
        assert(p1.len() == p.len());
        assert(p1.last() == p.last() + y0);
        assert(split_on(x + y, d) == p1.update(p1.len() - 1, p1.last().push(y.last())));
        assert((p.last() + y0).push(y.last()) =~= p.last() + y);
        assert(split_on(x + y, d) =~= p.update(p.len() - 1, p.last() + y));
    }
}

proof fn lemma_split_on_delim(x: Seq<char>, d: char)
    ensures
        split_on(x.push(d), d) == split_on(x, d).push(Seq::empty()),
{
    assert(x.push(d).drop_last() =~= x);
}

proof fn lemma_digit_char(n: nat)
    requires
        n < 10,
    ensures
        is_digit(crate::text::digit_char(n)),
        digit_value(crate::text::digit_char(n)) == n,
        (crate::text::digit_char(n) == '0') == (n == 0),
{
}

/// Decimal notation is made of digits, without a leading zero, and denotes its number.
proof fn lemma_decimal(n: nat)
    ensures
        all_digits(decimal(n)),
        digits_value(decimal(n)) == n,
        decimal(n).len() >= 1,
        n < 10 ==> decimal(n).len() == 1,
        n >= 10 ==> decimal(n).len() >= 2,
        n < 100 ==> decimal(n).len() <= 2,
        n < 1000 ==> decimal(n).len() <= 3,
        decimal(n).len() > 1 ==> decimal(n)[0] != '0',
        !decimal(n).contains('.'),
    decreases n,
{
    if n < 10 {
        lemma_digit_char(n);
        assert(decimal(n).drop_last() =~= Seq::<char>::empty());
        assert(digits_value(Seq::<char>::empty()) == 0);
        assert(decimal(n).last() == crate::text::digit_char(n));
    } else {
        lemma_decimal(n / 10);
        lemma_digit_char(n % 10);
        if n / 10 < 10 {
            lemma_digit_char(n / 10);
        }
        assert((n / 10) * 10 + n % 10 == n) by (nonlinear_arith);
        let t = decimal(n / 10);
        let s = decimal(n);
        assert(s.drop_last() =~= t);
        assert(s[0] == t[0]);
        assert forall|i: int| 0 <= i < s.len() implies is_digit(#[trigger] s[i]) by {
            if i < t.len() {
                assert(s[i] == t[i]);
            }
        }
        assert(!s.contains('.')) by {
            if s.contains('.') {
                let k = choose|k: int| 0 <= k < s.len() && s[k] == '.';
                assert(is_digit(s[k]));
            }
        }
        if n / 10 < 10 {
            assert(t[0] != '0');
        }
    }
}

/// A field that `Ipv4Addr` accepts is the decimal notation of its value.
proof fn lemma_strict_octet_canonical(f: Seq<char>)
    requires
        strict_octet(f),
    ensures
        decimal(digits_value(f)) == f,
{
    let c0 = f[0];
    if f.len() == 1 {
        assert(f.drop_last() =~= Seq::<char>::empty());
        assert(digits_value(Seq::<char>::empty()) == 0);
        assert(digits_value(f) == digit_value(c0));
        assert(decimal(digits_value(f)) =~= f);
    } else if f.len() == 2 {
        let g = f.drop_last();
        assert(g.drop_last() =~= Seq::<char>::empty());
        assert(digits_value(Seq::<char>::empty()) == 0);
        assert(g.last() == c0);
        assert(digits_value(g) == digit_value(c0));
        assert(digit_value(c0) >= 1);
        let v = digits_value(f);
        assert(v == digit_value(c0) * 10 + digit_value(f[1]));
        assert(v / 10 == digit_value(c0));
        assert(v % 10 == digit_value(f[1]));
        assert(decimal(v / 10) =~= seq![c0]);
        assert(decimal(v) =~= f);
    } else {
        let g = f.drop_last();
        let h = g.drop_last();
        assert(h.drop_last() =~= Seq::<char>::empty());
        assert(digits_value(Seq::<char>::empty()) == 0);
        assert(h.last() == c0);
        assert(digits_value(h) == digit_value(c0));
        assert(g[0] == c0);
        assert(g[1] == f[1]);
        let w = digits_value(g);
        assert(w == digit_value(c0) * 10 + digit_value(f[1]));
        let v = digits_value(f);
        assert(v == w * 10 + digit_value(f[2]));
        assert(digit_value(c0) >= 1);
        assert(v / 10 == w);
        assert(v % 10 == digit_value(f[2]));
        assert(w / 10 == digit_value(c0));
        assert(w % 10 == digit_value(f[1]));
        assert(decimal(w / 10) =~= seq![c0]);
        assert(decimal(w) =~= g);
        assert(decimal(v) =~= f);
    }
}

/// A field written by `ipv4_text` is one that `Ipv4Addr` accepts.
proof fn lemma_decimal_octet(n: nat)
    requires
        n < 256,
    ensures
        strict_octet(decimal(n)),
        digits_value(decimal(n)) == n,
        !decimal(n).contains('.'),
{
    lemma_decimal(n);
}

/// The written form of an address: digits and dots, starting and ending
/// with a digit.
pub(crate) proof fn lemma_ipv4_text_form(a: u32)
    ensures
        ipv4_text(a).len() > 0,
        is_digit(ipv4_text(a)[0]),
        is_digit(ipv4_text(a).last()),
        forall|k: int|
            0 <= k < ipv4_text(a).len() ==> is_digit(#[trigger] ipv4_text(a)[k]) || ipv4_text(a)[k]
                == '.',
{
    let d0 = decimal((a / 0x1000000) as nat);
    let d1 = decimal(((a / 0x10000) % 256) as nat);
    let d2 = decimal(((a / 0x100) % 256) as nat);
    let d3 = decimal((a % 256) as nat);
    lemma_decimal((a / 0x1000000) as nat);
    lemma_decimal(((a / 0x10000) % 256) as nat);
    lemma_decimal(((a / 0x100) % 256) as nat);
    lemma_decimal((a % 256) as nat);
    let t = ipv4_text(a);
    let p0 = d0 + seq!['.'];
    let p1 = p0 + d1 + seq!['.'];
    let p2 = p1 + d2 + seq!['.'];
    assert(t =~= p2 + d3);
    assert forall|k: int| 0 <= k < t.len() implies is_digit(#[trigger] t[k]) || t[k] == '.' by {
        if k < d0.len() {
            assert(t[k] == d0[k]);
        } else if k == d0.len() {
        } else if k < p0.len() + d1.len() {
            assert(t[k] == d1[k - p0.len()]);
        } else if k == p0.len() + d1.len() {
        } else if k < p1.len() + d2.len() {
            assert(t[k] == d2[k - p1.len()]);
        } else if k == p1.len() + d2.len() {
        } else {
            assert(t[k] == d3[k - p2.len()]);
        }
    }
    assert(t[0] == d0[0]);
    assert(t.last() == d3.last());
}

/// Formatting an address and reading the text back gives the address.
pub proof fn law_ipv4_text_parses(a: u32)
    ensures
        spec_ipv4(ipv4_text(a)) == Some(a),
{
    let n0 = (a / 0x1000000) as nat;
    let n1 = ((a / 0x10000) % 256) as nat;
    let n2 = ((a / 0x100) % 256) as nat;
    let n3 = (a % 256) as nat;
    assert(n0 < 256);
    lemma_decimal_octet(n0);
    lemma_decimal_octet(n1);
    lemma_decimal_octet(n2);
    lemma_decimal_octet(n3);
    let d0 = decimal(n0);
    let d1 = decimal(n1);
    let d2 = decimal(n2);
    let d3 = decimal(n3);
    let e = Seq::<char>::empty();
    lemma_split_on_append(e, d0, '.');
    assert(e + d0 =~= d0);
    assert(split_on(d0, '.') =~= seq![d0]);
    lemma_split_on_delim(d0, '.');
    let s1 = d0.push('.');
    lemma_split_on_append(s1, d1, '.');
    let s2 = (s1 + d1).push('.');
    lemma_split_on_delim(s1 + d1, '.');
    lemma_split_on_append(s2, d2, '.');
    let s3 = (s2 + d2).push('.');
    lemma_split_on_delim(s2 + d2, '.');
    lemma_split_on_append(s3, d3, '.');
    assert(s3 + d3 =~= ipv4_text(a));
    let f = split_on(ipv4_text(a), '.');
    assert(f =~= seq![d0, d1, d2, d3]);
    assert(quad_value(f) == a) by (nonlinear_arith)
        requires
            quad_value(f) == ((n0 * 256 + n1) * 256 + n2) * 256 + n3,
            n0 == a / 0x1000000,
            n1 == (a / 0x10000) % 256,
            n2 == (a / 0x100) % 256,
            n3 == a % 256,
    ;
}

/// A text that `Ipv4Addr` accepts is the one its address is written as.
pub proof fn law_ipv4_parse_canonical(s: Seq<char>)
    requires
        spec_ipv4(s) is Some,
    ensures
        ipv4_text(spec_ipv4(s).unwrap()) == s,
{
    let f = split_on(s, '.');
    lemma_join_split(s, '.');
    lemma_strict_octet_canonical(f[0]);
    lemma_strict_octet_canonical(f[1]);
    lemma_strict_octet_canonical(f[2]);
    lemma_strict_octet_canonical(f[3]);
    let v0 = digits_value(f[0]);
    let v1 = digits_value(f[1]);
    let v2 = digits_value(f[2]);
    let v3 = digits_value(f[3]);
    let a = spec_ipv4(s).unwrap();
    assert(a == quad_value(f) as u32);
    assert(a / 0x1000000 == v0 && (a / 0x10000) % 256 == v1 && (a / 0x100) % 256 == v2 && a % 256
        == v3) by (nonlinear_arith)
        requires
            v0 < 256,
            v1 < 256,
            v2 < 256,
            v3 < 256,
            a == ((v0 * 256 + v1) * 256 + v2) * 256 + v3,
    ;
    let f1 = f.drop_last();
    let f2 = f1.drop_last();
    let f3 = f2.drop_last();
    assert(f3 =~= seq![f[0]]);
    assert(join_on(f3, '.') == f[0]);
    assert(f2.last() == f[1]);
    assert(f1.last() == f[2]);
    assert(join_on(f2, '.') == join_on(f3, '.') + seq!['.'] + f[1]);
    assert(join_on(f1, '.') == join_on(f2, '.') + seq!['.'] + f[2]);
    assert(join_on(f, '.') == join_on(f1, '.') + seq!['.'] + f[3]);
    assert(join_on(f, '.') =~= f[0] + seq!['.'] + f[1] + seq!['.'] + f[2] + seq!['.'] + f[3]);
}

/// An address as `Ipv4Addr` accepts it holds only digits and dots.
pub(crate) proof fn lemma_ipv4_chars(s: Seq<char>)
    requires
        spec_ipv4(s) is Some,
    ensures
        forall|i: int| 0 <= i < s.len() ==> is_digit(#[trigger] s[i]) || s[i] == '.',
{
    law_ipv4_parse_canonical(s);
    let a = spec_ipv4(s).unwrap();
    let d0 = decimal((a / 0x1000000) as nat);
    let d1 = decimal(((a / 0x10000) % 256) as nat);
    let d2 = decimal(((a / 0x100) % 256) as nat);
    let d3 = decimal((a % 256) as nat);
    lemma_decimal((a / 0x1000000) as nat);
    lemma_decimal(((a / 0x10000) % 256) as nat);
    lemma_decimal(((a / 0x100) % 256) as nat);
    lemma_decimal((a % 256) as nat);
    let p1 = d0 + seq!['.'];
    let p2 = p1 + d1 + seq!['.'];
    let p3 = p2 + d2 + seq!['.'];
    assert(s == p3 + d3);
    assert forall|i: int| 0 <= i < s.len() implies is_digit(#[trigger] s[i]) || s[i] == '.' by {
        if i < d0.len() {
            assert(s[i] == d0[i]);
        } else if i < p1.len() {
        } else if i < p1.len() + d1.len() {
            assert(s[i] == d1[i - p1.len()]);
        } else if i < p2.len() {
        } else if i < p2.len() + d2.len() {
            assert(s[i] == d2[i - p2.len()]);
        } else if i < p3.len() {
        } else {
            assert(s[i] == d3[i - p3.len()]);
        }
    }
}

/// The prefix length of a network is at most 32.
proof fn lemma_net_prefix_small(s: Seq<char>)
    ensures
        spec_ipv4_net(s) matches Some((_, p)) ==> p <= 32,
{
    let parts = split_on(s, '/');
    if spec_ipv4_net(s) is Some {
        assert(prefix_field(parts[1]));
        assert(digits_value(parts[1]) <= 32);
    }
}

/// Hosts sort by address: of two addresses the lower one has the lower key,
/// equal addresses have equal keys, and a text that is no address sorts as
/// `0.0.0.0`.
pub proof fn law_host_key_follows_address(a: Seq<char>, b: Seq<char>)
    ensures
        (spec_ipv4(a) matches Some(x) && spec_ipv4(b) matches Some(y) && x < y) ==> host_key(a)
            < host_key(b),
        (spec_ipv4(a) matches Some(x) && spec_ipv4(b) matches Some(y) && x == y) ==> host_key(a)
            == host_key(b),
        spec_ipv4(a) is None ==> host_key(a) == host_key(ipv4_text(0)),
{
    law_ipv4_text_parses(0);
}

/// Networks sort by address, then by prefix length: a lower address gives a
/// lower key, and at equal addresses a shorter prefix does.
pub proof fn law_network_key_follows_network(a: Seq<char>, b: Seq<char>)
    ensures
        (spec_ipv4_net(a) matches Some((x, p)) && spec_ipv4_net(b) matches Some((y, q)) && x < y)
            ==> network_key(a) < network_key(b),
        (spec_ipv4_net(a) matches Some((x, p)) && spec_ipv4_net(b) matches Some((y, q)) && x == y
            && p < q) ==> network_key(a) < network_key(b),
{
    if spec_ipv4_net(a) is Some && spec_ipv4_net(b) is Some {
        let (x, p) = spec_ipv4_net(a).unwrap();
        let (y, q) = spec_ipv4_net(b).unwrap();
        lemma_net_prefix_small(a);
        lemma_net_prefix_small(b);
        assert(x < y ==> (x as int) * 64 + p < (y as int) * 64 + q) by (nonlinear_arith)
            requires
                p < 64,
                q < 64,
        ;
    }
}

} // verus!