//! Entering a comparison in a form: choosing its kinds, then its values one
//! at a time, until the comparison is complete.
use vstd::prelude::*;

use crate::comparison::{Comparison, ComparisonKind, Value, ValueKind, comparison_kind_text, value_kind_text};
use crate::model::{Item, ViewString};
use crate::text::owned;

verus! {

/// The option offered for a kind of value: its name as key and as raw text.
pub fn value_kind_item(kind: ValueKind) -> (i: Item)
    ensures
        i.id_view() == value_kind_text(kind),
        i.value_view() matches ViewString::Raw(t) && t@ == value_kind_text(kind),
{
    Item::new(owned(kind.to_text()), ViewString::Raw(owned(kind.to_text())))
}

/// The option offered for a kind of comparison: its text as key and as raw text.
pub fn comparison_kind_item(kind: ComparisonKind) -> (i: Item)
    ensures
        i.id_view() == comparison_kind_text(kind),
        i.value_view() matches ViewString::Raw(t) && t@ == comparison_kind_text(kind),
{
    Item::new(owned(kind.to_text()), ViewString::Raw(owned(kind.to_text())))
}

/// A value of the kind with nothing entered yet.
pub fn empty_value(kind: ValueKind) -> (v: Value)
    ensures
        v.kind() == kind,
        match v {
            Value::String(x) => x is None,
            Value::Integer(x) => x is None,
            Value::Float(x) => x is None,
        },
{
    match kind {
        ValueKind::String => Value::String(None),
        ValueKind::Integer => Value::Integer(None),
        ValueKind::Float => Value::Float(None),
    }
}

/// The comparison of the kind `cmp` with `value` in each of its places,
/// shown while its values are still to be entered.
pub fn comparison_template(cmp: ComparisonKind, value: Value) -> (c: Comparison)
    ensures
        c.kind() == cmp,
        c.first_value() == value,
        c.second_value() == (if cmp.is_range() {
            Some(value)
        } else {
            None
        }),
{
    let second = value.clone();
    match Comparison::try_new(cmp, value, Some(second)) {
        Ok(c) => c,
        Err(_) => {
            proof {
                assert(false);
            }
            Comparison::Less(Value::String(None))
        },
    }
}

/// The values entered so far for a comparison.
pub struct ComparisonBuffer {
    pub first: Option<Value>,
    pub second: Option<Value>,
}

/// A value was entered at `value_index` (0 for the first value): it is kept,
/// and the comparison of kind `cmp` is made once every value it needs is
/// there.
pub fn input_comparison_value(buffer: &mut ComparisonBuffer, cmp: ComparisonKind, value_index: usize, value: Value) -> (r: Option<Comparison>)
    ensures
        final(buffer).first == (if value_index == 0 {
            Some(value)
        } else {
            old(buffer).first
        }),
        final(buffer).second == (if value_index == 0 {
            old(buffer).second
        } else {
            Some(value)
        }),
        match r {
            Some(c) => c.kind() == cmp && Some(c.first_value()) == final(buffer).first && c.second_value()
                == (if cmp.is_range() {
                final(buffer).second
            } else {
                None
            }),
            None => final(buffer).first is None || (cmp.is_range() && final(buffer).second is None),
        },
{
    if value_index == 0 {
        buffer.first = Some(value);
    } else {
        buffer.second = Some(value);
    }
    match &buffer.first {
        Some(first) => {
            if cmp.chain_cmp() {
                match &buffer.second {
                    Some(second) => match Comparison::try_new(cmp, first.clone(), Some(second.clone())) {
                        Ok(c) => Some(c),
                        Err(_) => None,
                    },
                    None => None,
                }
            } else {
                match Comparison::try_new(cmp, first.clone(), None) {
                    Ok(c) => Some(c),
                    Err(_) => None,
                }
            }
        },
        None => None,
    }
}

/// The kind chosen in a select box: the first selected key read as a kind,
/// none when nothing is selected or the key names no kind.
pub fn chosen_value_kind(selected: &Option<Vec<String>>) -> (k: Option<ValueKind>)
    ensures
        match selected {
            Some(v) if v@.len() > 0 => match k {
                Some(x) => v@[0]@ == value_kind_text(x),
                None => forall|x: ValueKind| v@[0]@ != #[trigger] value_kind_text(x),
            },
            _ => k is None,
        },
{
    match selected {
        Some(v) => if v.len() > 0 {
            ValueKind::from_text(v[0].as_str())
        } else {
            None
        },
        None => None,
    }
}

/// The comparison chosen in a select box: the first selected key read as a
/// kind of comparison.
pub fn chosen_comparison_kind(selected: &Option<Vec<String>>) -> (k: Option<ComparisonKind>)
    ensures
        match selected {
            Some(v) if v@.len() > 0 => match k {
                Some(x) => v@[0]@ == comparison_kind_text(x),
                None => forall|x: ComparisonKind| v@[0]@ != #[trigger] comparison_kind_text(x),
            },
            _ => k is None,
        },
{
    match selected {
        Some(v) => if v.len() > 0 {
            ComparisonKind::from_text(v[0].as_str())
        } else {
            None
        },
        None => None,
    }
}

} // verus!
