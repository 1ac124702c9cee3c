//! The byte encoding that comparison values are stored in: `bincode` with its
//! default options (little endian, variable-length integers).
use bincode::Options;
use vstd::prelude::*;
use vstd::utf8::encode_utf8;

use crate::comparison::Value;

verus! {

/// The `k` low bytes of `n`, least significant first.
pub open spec fn le_bytes(n: nat, k: nat) -> Seq<u8>
    decreases k,
{
    if k == 0 {
        Seq::empty()
    } else {
        seq![(n % 256) as u8] + le_bytes(n / 256, (k - 1) as nat)
    }
}

/// A variable-length unsigned integer: one byte up to 250, otherwise a marker
/// byte (251, 252, 253) followed by two, four or eight little-endian bytes.
pub open spec fn varint(n: u64) -> Seq<u8> {
    if n <= 250 {
        seq![n as u8]
    } else if n <= 0xffff {
        seq![251u8] + le_bytes(n as nat, 2)
    } else if n <= 0xffff_ffff {
        seq![252u8] + le_bytes(n as nat, 4)
    } else {
        seq![253u8] + le_bytes(n as nat, 8)
    }
}

/// Zig-zag mapping of signed to unsigned integers: 0, -1, 1, -2, ... to 0, 1, 2, 3, ...
pub open spec fn zigzag(n: i64) -> u64 {
    if n < 0 {
        (-2 * n - 1) as u64
    } else {
        (2 * n) as u64
    }
}

/// A string: the length of its UTF-8 bytes, then the bytes.
pub open spec fn string_encoding(s: Seq<char>) -> Seq<u8> {
    varint(encode_utf8(s).len() as u64) + encode_utf8(s)
}

/// A signed integer: its zig-zag image as a variable-length integer.
pub open spec fn integer_encoding(n: i64) -> Seq<u8> {
    varint(zigzag(n))
}

/// A float: the eight little-endian bytes of its bits.
pub open spec fn float_encoding(bits: u64) -> Seq<u8> {
    le_bytes(bits as nat, 8)
}

/// `bincode::DefaultOptions::new().serialize` of a `String`: its byte length
/// as a varint, then its UTF-8 bytes. With no size limit it does not fail.
#[verifier::external_body]
fn bincode_string(s: &String) -> (r: Option<Vec<u8>>)
    ensures
        r is Some,
        r.unwrap()@ == string_encoding(s@),
{
    bincode::DefaultOptions::new().serialize(s).ok()
}

/// `bincode::DefaultOptions::new().serialize` of an `i64`: the zig-zag varint.
#[verifier::external_body]
fn bincode_integer(n: i64) -> (r: Option<Vec<u8>>)
    ensures
        r is Some,
        r.unwrap()@ == integer_encoding(n),
{
    bincode::DefaultOptions::new().serialize(&n).ok()
}

/// `bincode::DefaultOptions::new().with_fixint_encoding().serialize` of the
/// bits of a float: eight little-endian bytes. bincode writes a float as the
/// little-endian bytes of its bits whatever the integer encoding, so these are
/// the bytes of the float itself under the default options.
#[verifier::external_body]
fn bincode_float(bits: u64) -> (r: Option<Vec<u8>>)
    ensures
        r is Some,
        r.unwrap()@ == float_encoding(bits),
{
    bincode::DefaultOptions::new().with_fixint_encoding().serialize(&bits).ok()
}

/// The encoding of a value that is present.
pub open spec fn value_encoding(v: Value) -> Option<Seq<u8>> {
    match v {
        Value::String(Some(s)) => Some(string_encoding(s@)),
        Value::Integer(Some(n)) => Some(integer_encoding(n)),
        Value::Float(Some(b)) => Some(float_encoding(b)),
        _ => None,
    }
}

impl Value {
    /// The stored form of the value; `None` when the value is missing.
    pub fn serialize(&self) -> (r: Option<Vec<u8>>)
        ensures
            match value_encoding(*self) {
                Some(e) => r matches Some(v) && v@ == e,
                None => r is None,
            },
    {
        match self {
            Value::String(Some(s)) => bincode_string(s),
            Value::Integer(Some(n)) => bincode_integer(*n),
            Value::Float(Some(b)) => bincode_float(*b),
            _ => None,
        }
    }
}

} // verus!
