//! Comparisons of a value `x` against one value `a`, or a range between `a` and `b`.
use vstd::prelude::*;

use crate::text::{chars_equal, chars_of};

verus! {

/// The kind of the values compared.
#[derive(Clone, Copy, Eq, PartialEq)]
pub enum ValueKind {
    String,
    Integer,
    Float,
}

impl ValueKind {
    /// The name of the kind, as shown to users.
    pub fn to_text(self) -> (s: &'static str)
        ensures
            s@ == value_kind_text(self),
    {
        match self {
            ValueKind::String => "String",
            ValueKind::Integer => "Integer",
            ValueKind::Float => "Float",
        }
    }
}

pub open spec fn value_kind_text(k: ValueKind) -> Seq<char> {
    match k {
        ValueKind::String => "String"@,
        ValueKind::Integer => "Integer"@,
        ValueKind::Float => "Float"@,
    }
}

/// A value to compare against. A float is held by its IEEE 754 bits
/// (`f64::to_bits`), so that it stays exactly what the user entered.
#[derive(PartialEq)]
pub enum Value {
    String(Option<String>),
    Integer(Option<i64>),
    Float(Option<u64>),
}

impl Clone for Value {
    fn clone(&self) -> (r: Self)
        ensures
            r == *self,
    {
        match self {
            Value::String(Some(s)) => Value::String(Some(s.clone())),
            Value::String(None) => Value::String(None),
            Value::Integer(v) => Value::Integer(*v),
            Value::Float(v) => Value::Float(*v),
        }
    }
}

impl Value {
    pub open spec fn kind(self) -> ValueKind {
        match self {
            Value::String(_) => ValueKind::String,
            Value::Integer(_) => ValueKind::Integer,
            Value::Float(_) => ValueKind::Float,
        }
    }
}

/// The kinds of comparison.
#[derive(Clone, Copy, Eq, PartialEq)]
pub enum ComparisonKind {
    Less,
    Equal,
    Greater,
    LessOrEqual,
    GreaterOrEqual,
    Contain,
    OpenRange,
    CloseRange,
    LeftOpenRange,
    RightOpenRange,
    NotEqual,
    NotContain,
    NotOpenRange,
    NotCloseRange,
    NotLeftOpenRange,
    NotRightOpenRange,
}

impl ComparisonKind {
    /// The kind compares against a range of two values.
    pub open spec fn is_range(self) -> bool {
        match self {
            ComparisonKind::Less | ComparisonKind::Equal | ComparisonKind::Greater
            | ComparisonKind::LessOrEqual | ComparisonKind::GreaterOrEqual | ComparisonKind::Contain
            | ComparisonKind::NotEqual | ComparisonKind::NotContain => false,
            _ => true,
        }
    }

    /// Whether the kind compares against a range of two values.
    pub fn chain_cmp(self) -> (b: bool)
        ensures
            b == self.is_range(),
    {
        !matches!(
            self,
            ComparisonKind::Less | ComparisonKind::Equal | ComparisonKind::Greater
                | ComparisonKind::LessOrEqual | ComparisonKind::GreaterOrEqual
                | ComparisonKind::Contain | ComparisonKind::NotEqual | ComparisonKind::NotContain
        )
    }

    /// The kind as users see it, such as `x < a` or `a ≤ x < b`.
    pub fn to_text(self) -> (s: &'static str)
        ensures
            s@ == comparison_kind_text(self),
    {
        match self {
            ComparisonKind::Less => "x < a",
            ComparisonKind::Equal => "x = a",
            ComparisonKind::Greater => "x > a",
            ComparisonKind::LessOrEqual => "x ≤ a",
            ComparisonKind::GreaterOrEqual => "x ≥ a",
            ComparisonKind::Contain => "x Contains a",
            ComparisonKind::OpenRange => "a < x < b",
            ComparisonKind::CloseRange => "a ≤ x ≤ b",
            ComparisonKind::LeftOpenRange => "a < x ≤ b",
            ComparisonKind::RightOpenRange => "a ≤ x < b",
            ComparisonKind::NotEqual => "x != a",
            ComparisonKind::NotContain => "x !Contains a",
            ComparisonKind::NotOpenRange => "!(a < x < b)",
            ComparisonKind::NotCloseRange => "!(a ≤ x ≤ b)",
            ComparisonKind::NotLeftOpenRange => "!(a < x ≤ b)",
            ComparisonKind::NotRightOpenRange => "!(a ≤ x < b)",
        }
    }
}

pub open spec fn comparison_kind_text(k: ComparisonKind) -> Seq<char> {
    match k {
        ComparisonKind::Less => "x < a"@,
        ComparisonKind::Equal => "x = a"@,
        ComparisonKind::Greater => "x > a"@,
        ComparisonKind::LessOrEqual => "x ≤ a"@,
        ComparisonKind::GreaterOrEqual => "x ≥ a"@,
        ComparisonKind::Contain => "x Contains a"@,
        ComparisonKind::OpenRange => "a < x < b"@,
        ComparisonKind::CloseRange => "a ≤ x ≤ b"@,
        ComparisonKind::LeftOpenRange => "a < x ≤ b"@,
        ComparisonKind::RightOpenRange => "a ≤ x < b"@,
        ComparisonKind::NotEqual => "x != a"@,
        ComparisonKind::NotContain => "x !Contains a"@,
        ComparisonKind::NotOpenRange => "!(a < x < b)"@,
        ComparisonKind::NotCloseRange => "!(a ≤ x ≤ b)"@,
        ComparisonKind::NotLeftOpenRange => "!(a < x ≤ b)"@,
        ComparisonKind::NotRightOpenRange => "!(a ≤ x < b)"@,
    }
}

fn is_text(c: &Vec<char>, lit: &str) -> (b: bool)
    ensures
        b == (c@ == lit@),
{
    let l = chars_of(lit);
    chars_equal(c.as_slice(), l.as_slice())
}

impl ValueKind {
    /// The kind whose name is `s` (the names `to_text` gives).
    pub fn from_text(s: &str) -> (r: Option<ValueKind>)
        ensures
            match r {
                Some(k) => s@ == value_kind_text(k),
                None => forall|k: ValueKind| s@ != #[trigger] value_kind_text(k),
            },
    {
        let c = chars_of(s);
        if is_text(&c, "String") {
            return Some(ValueKind::String);
        }
        if is_text(&c, "Integer") {
            return Some(ValueKind::Integer);
        }
        if is_text(&c, "Float") {
            return Some(ValueKind::Float);
        }
        assert forall|k: ValueKind| s@ != #[trigger] value_kind_text(k) by {
            match k {
                ValueKind::String => {},
                ValueKind::Integer => {},
                ValueKind::Float => {},
            }
        }
        None
    }

    /// Every kind, in the order declared.
    pub fn all() -> (r: Vec<ValueKind>)
        ensures
            r@ == seq![ValueKind::String, ValueKind::Integer, ValueKind::Float],
    {
        let mut r: Vec<ValueKind> = Vec::new();
        r.push(ValueKind::String);
        r.push(ValueKind::Integer);
        r.push(ValueKind::Float);
        assert(r@ =~= seq![ValueKind::String, ValueKind::Integer, ValueKind::Float]);
        r
    }
}

impl ComparisonKind {
    /// The kind whose text is `s` (the texts `to_text` gives).
    pub fn from_text(s: &str) -> (r: Option<ComparisonKind>)
        ensures
            match r {
                Some(k) => s@ == comparison_kind_text(k),
                None => forall|k: ComparisonKind| s@ != #[trigger] comparison_kind_text(k),
            },
    {
        let c = chars_of(s);
        if is_text(&c, "x < a") {
            return Some(ComparisonKind::Less);
        }
        if is_text(&c, "x = a") {
            return Some(ComparisonKind::Equal);
        }
        if is_text(&c, "x > a") {
            return Some(ComparisonKind::Greater);
        }
        if is_text(&c, "x ≤ a") {
            return Some(ComparisonKind::LessOrEqual);
        }
        if is_text(&c, "x ≥ a") {
            return Some(ComparisonKind::GreaterOrEqual);
        }
        if is_text(&c, "x Contains a") {
            return Some(ComparisonKind::Contain);
        }
        if is_text(&c, "a < x < b") {
            return Some(ComparisonKind::OpenRange);
        }
        if is_text(&c, "a ≤ x ≤ b") {
            return Some(ComparisonKind::CloseRange);
        }
        if is_text(&c, "a < x ≤ b") {
            return Some(ComparisonKind::LeftOpenRange);
        }
        if is_text(&c, "a ≤ x < b") {
            return Some(ComparisonKind::RightOpenRange);
        }
        if is_text(&c, "x != a") {
            return Some(ComparisonKind::NotEqual);
        }
        if is_text(&c, "x !Contains a") {
            return Some(ComparisonKind::NotContain);
        }
        if is_text(&c, "!(a < x < b)") {
            return Some(ComparisonKind::NotOpenRange);
        }
        if is_text(&c, "!(a ≤ x ≤ b)") {
            return Some(ComparisonKind::NotCloseRange);
        }
        if is_text(&c, "!(a < x ≤ b)") {
            return Some(ComparisonKind::NotLeftOpenRange);
        }
        if is_text(&c, "!(a ≤ x < b)") {
            return Some(ComparisonKind::NotRightOpenRange);
        }
        None
    }
}

/// The kind a text of a kind names, read from a few of its characters.
spec fn kind_of_text(t: Seq<char>) -> ComparisonKind {
    if t[0] == 'x' {
        if t.len() == 5 {
            if t[2] == '<' {
                ComparisonKind::Less
            } else if t[2] == '=' {
                ComparisonKind::Equal
            } else if t[2] == '>' {
                ComparisonKind::Greater
            } else if t[2] == '\u{2264}' {
                ComparisonKind::LessOrEqual
            } else {
                ComparisonKind::GreaterOrEqual
            }
        } else if t.len() == 6 {
            ComparisonKind::NotEqual
        } else if t.len() == 12 {
            ComparisonKind::Contain
        } else {
            ComparisonKind::NotContain
        }
    } else if t[0] == 'a' {
        if t[2] == '<' {
            if t[6] == '<' {
                ComparisonKind::OpenRange
            } else {
                ComparisonKind::LeftOpenRange
            }
        } else if t[6] == '<' {
            ComparisonKind::RightOpenRange
        } else {
            ComparisonKind::CloseRange
        }
    } else if t[4] == '<' {
        if t[8] == '<' {
            ComparisonKind::NotOpenRange
        } else {
            ComparisonKind::NotLeftOpenRange
        }
    } else if t[8] == '<' {
        ComparisonKind::NotRightOpenRange
    } else {
        ComparisonKind::NotCloseRange
    }
}

proof fn lemma_kind_of_text(k: ComparisonKind)
    ensures
        kind_of_text(comparison_kind_text(k)) == k,
{
    match k {
        ComparisonKind::Less => {
            reveal_strlit("x < a");
        },
        ComparisonKind::Equal => {
            reveal_strlit("x = a");
        },
        ComparisonKind::Greater => {
            reveal_strlit("x > a");
        },
        ComparisonKind::LessOrEqual => {
            reveal_strlit("x ≤ a");
        },
        ComparisonKind::GreaterOrEqual => {
            reveal_strlit("x ≥ a");
        },
        ComparisonKind::Contain => {
            reveal_strlit("x Contains a");
        },
        ComparisonKind::OpenRange => {
            reveal_strlit("a < x < b");
        },
        ComparisonKind::CloseRange => {
            reveal_strlit("a ≤ x ≤ b");
        },
        ComparisonKind::LeftOpenRange => {
            reveal_strlit("a < x ≤ b");
        },
        ComparisonKind::RightOpenRange => {
            reveal_strlit("a ≤ x < b");
        },
        ComparisonKind::NotEqual => {
            reveal_strlit("x != a");
        },
        ComparisonKind::NotContain => {
            reveal_strlit("x !Contains a");
        },
        ComparisonKind::NotOpenRange => {
            reveal_strlit("!(a < x < b)");
        },
        ComparisonKind::NotCloseRange => {
            reveal_strlit("!(a ≤ x ≤ b)");
        },
        ComparisonKind::NotLeftOpenRange => {
            reveal_strlit("!(a < x ≤ b)");
        },
        ComparisonKind::NotRightOpenRange => {
            reveal_strlit("!(a ≤ x < b)");
        },
    }
}

/// Different kinds have different texts, so reading a kind's text gives the
/// kind back.
pub proof fn law_comparison_kind_text_identifies(a: ComparisonKind, b: ComparisonKind)
    requires
        comparison_kind_text(a) == comparison_kind_text(b),
    ensures
        a == b,
{
    lemma_kind_of_text(a);
    lemma_kind_of_text(b);
}

/// Different kinds of value have different names.
pub proof fn law_value_kind_text_identifies(a: ValueKind, b: ValueKind)
    requires
        value_kind_text(a) == value_kind_text(b),
    ensures
        a == b,
{
    reveal_strlit("String");
    reveal_strlit("Integer");
    reveal_strlit("Float");
    let ta = value_kind_text(a);
    let tb = value_kind_text(b);
    assert(ta.len() == tb.len());
    match a {
        ValueKind::String => {},
        ValueKind::Integer => {},
        ValueKind::Float => {},
    }
    match b {
        ValueKind::String => {},
        ValueKind::Integer => {},
        ValueKind::Float => {},
    }
    assert(ta[0] == tb[0]);
}

/// What the input form shows before the first value of a comparison.
pub fn cmp_statement_head(kind: ComparisonKind) -> (s: &'static str)
    ensures
        s@ == (if is_negated_range(kind) { "!("@ } else { ""@ }),
{
    match kind {
        ComparisonKind::NotOpenRange | ComparisonKind::NotCloseRange
        | ComparisonKind::NotLeftOpenRange | ComparisonKind::NotRightOpenRange => "!(",
        _ => "",
    }
}

/// What the input form shows after the last value of a comparison.
pub fn cmp_statement_tail(kind: ComparisonKind) -> (s: &'static str)
    ensures
        s@ == (if is_negated_range(kind) { ")"@ } else { ""@ }),
{
    match kind {
        ComparisonKind::NotOpenRange | ComparisonKind::NotCloseRange
        | ComparisonKind::NotLeftOpenRange | ComparisonKind::NotRightOpenRange => ")",
        _ => "",
    }
}

pub open spec fn is_negated_range(kind: ComparisonKind) -> bool {
    match kind {
        ComparisonKind::NotOpenRange | ComparisonKind::NotCloseRange
        | ComparisonKind::NotLeftOpenRange | ComparisonKind::NotRightOpenRange => true,
        _ => false,
    }
}

/// What the input form shows between the values of a comparison.
pub fn cmp_statement_symbol(kind: ComparisonKind) -> (s: &'static str)
    ensures
        s@ == statement_symbol(kind),
{
    match kind {
        ComparisonKind::Less => " x < ",
        ComparisonKind::Equal => " x = ",
        ComparisonKind::Greater => " x > ",
        ComparisonKind::LessOrEqual => " x ≤ ",
        ComparisonKind::GreaterOrEqual => " x ≥ ",
        ComparisonKind::Contain => " x Contains ",
        ComparisonKind::OpenRange | ComparisonKind::NotOpenRange => " < x < ",
        ComparisonKind::CloseRange | ComparisonKind::NotCloseRange => " ≤ x ≤ ",
        ComparisonKind::LeftOpenRange | ComparisonKind::NotLeftOpenRange => " < x ≤ ",
        ComparisonKind::RightOpenRange | ComparisonKind::NotRightOpenRange => " ≤ x < ",
        ComparisonKind::NotEqual => " != ",
        ComparisonKind::NotContain => " !Contains ",
    }
}

pub open spec fn statement_symbol(kind: ComparisonKind) -> Seq<char> {
    match kind {
        ComparisonKind::Less => " x < "@,
        ComparisonKind::Equal => " x = "@,
        ComparisonKind::Greater => " x > "@,
        ComparisonKind::LessOrEqual => " x ≤ "@,
        ComparisonKind::GreaterOrEqual => " x ≥ "@,
        ComparisonKind::Contain => " x Contains "@,
        ComparisonKind::OpenRange | ComparisonKind::NotOpenRange => " < x < "@,
        ComparisonKind::CloseRange | ComparisonKind::NotCloseRange => " ≤ x ≤ "@,
        ComparisonKind::LeftOpenRange | ComparisonKind::NotLeftOpenRange => " < x ≤ "@,
        ComparisonKind::RightOpenRange | ComparisonKind::NotRightOpenRange => " ≤ x < "@,
        ComparisonKind::NotEqual => " != "@,
        ComparisonKind::NotContain => " !Contains "@,
    }
}

/// A comparison with its value, or its two values for a range.
#[derive(PartialEq)]
pub enum Comparison {
    Less(Value),
    Equal(Value),
    Greater(Value),
    LessOrEqual(Value),
    GreaterOrEqual(Value),
    Contain(Value),
    OpenRange(Value, Value),
    CloseRange(Value, Value),
    LeftOpenRange(Value, Value),
    RightOpenRange(Value, Value),
    NotEqual(Value),
    NotContain(Value),
    NotOpenRange(Value, Value),
    NotCloseRange(Value, Value),
    NotLeftOpenRange(Value, Value),
    NotRightOpenRange(Value, Value),
}

/// A range comparison was asked for with only one value.
#[derive(Debug)]
pub struct IncompletePairOfValues;

impl IncompletePairOfValues {
    /// The message of the error.
    pub fn to_string(&self) -> (s: String)
        ensures
            s@ == "Incomplete Pair of Values"@,
    {
        crate::text::owned("Incomplete Pair of Values")
    }
}

impl Comparison {
    pub open spec fn kind(self) -> ComparisonKind {
        match self {
            Comparison::Less(..) => ComparisonKind::Less,
            Comparison::Equal(..) => ComparisonKind::Equal,
            Comparison::Greater(..) => ComparisonKind::Greater,
            Comparison::LessOrEqual(..) => ComparisonKind::LessOrEqual,
            Comparison::GreaterOrEqual(..) => ComparisonKind::GreaterOrEqual,
            Comparison::Contain(..) => ComparisonKind::Contain,
            Comparison::OpenRange(..) => ComparisonKind::OpenRange,
            Comparison::CloseRange(..) => ComparisonKind::CloseRange,
            Comparison::LeftOpenRange(..) => ComparisonKind::LeftOpenRange,
            Comparison::RightOpenRange(..) => ComparisonKind::RightOpenRange,
            Comparison::NotEqual(..) => ComparisonKind::NotEqual,
            Comparison::NotContain(..) => ComparisonKind::NotContain,
            Comparison::NotOpenRange(..) => ComparisonKind::NotOpenRange,
            Comparison::NotCloseRange(..) => ComparisonKind::NotCloseRange,
            Comparison::NotLeftOpenRange(..) => ComparisonKind::NotLeftOpenRange,
            Comparison::NotRightOpenRange(..) => ComparisonKind::NotRightOpenRange,
        }
    }

    /// The (first) value.
    pub open spec fn first_value(self) -> Value {
        match self {
            Comparison::Less(v) | Comparison::Equal(v) | Comparison::Greater(v)
            | Comparison::LessOrEqual(v) | Comparison::GreaterOrEqual(v) | Comparison::Contain(v)
            | Comparison::NotEqual(v) | Comparison::NotContain(v) | Comparison::OpenRange(v, _)
            | Comparison::CloseRange(v, _) | Comparison::LeftOpenRange(v, _)
            | Comparison::RightOpenRange(v, _) | Comparison::NotOpenRange(v, _)
            | Comparison::NotCloseRange(v, _) | Comparison::NotLeftOpenRange(v, _)
            | Comparison::NotRightOpenRange(v, _) => v,
        }
    }

    /// The second value of a range.
    pub open spec fn second_value(self) -> Option<Value> {
        match self {
            Comparison::OpenRange(_, v) | Comparison::CloseRange(_, v)
            | Comparison::LeftOpenRange(_, v) | Comparison::RightOpenRange(_, v)
            | Comparison::NotOpenRange(_, v) | Comparison::NotCloseRange(_, v)
            | Comparison::NotLeftOpenRange(_, v) | Comparison::NotRightOpenRange(_, v) => Some(v),
            _ => None,
        }
    }

    /// Builds the comparison of kind `cmp`. A range takes `second`; it is an
    /// error to ask for a range without it. A single-value kind ignores `second`.
    pub fn try_new(cmp: ComparisonKind, first: Value, second: Option<Value>) -> (r: Result<
        Self,
        IncompletePairOfValues,
    >)
        ensures
            r is Err <==> cmp.is_range() && second is None,
            r matches Ok(c) ==> c.kind() == cmp && c.first_value() == first && c.second_value() == (
            if cmp.is_range() {
                second
            } else {
                None
            }),
    {
        match cmp {
            ComparisonKind::Less => Ok(Comparison::Less(first)),
            ComparisonKind::Equal => Ok(Comparison::Equal(first)),
            ComparisonKind::Greater => Ok(Comparison::Greater(first)),
            ComparisonKind::LessOrEqual => Ok(Comparison::LessOrEqual(first)),
            ComparisonKind::GreaterOrEqual => Ok(Comparison::GreaterOrEqual(first)),
            ComparisonKind::Contain => Ok(Comparison::Contain(first)),
            ComparisonKind::NotEqual => Ok(Comparison::NotEqual(first)),
            ComparisonKind::NotContain => Ok(Comparison::NotContain(first)),
            ComparisonKind::OpenRange => match second {
                Some(second) => Ok(Comparison::OpenRange(first, second)),
                None => Err(IncompletePairOfValues),
            },
            ComparisonKind::CloseRange => match second {
                Some(second) => Ok(Comparison::CloseRange(first, second)),
                None => Err(IncompletePairOfValues),
            },
            ComparisonKind::LeftOpenRange => match second {
                Some(second) => Ok(Comparison::LeftOpenRange(first, second)),
                None => Err(IncompletePairOfValues),
            },
            ComparisonKind::RightOpenRange => match second {
                Some(second) => Ok(Comparison::RightOpenRange(first, second)),
                None => Err(IncompletePairOfValues),
            },
            ComparisonKind::NotOpenRange => match second {
                Some(second) => Ok(Comparison::NotOpenRange(first, second)),
                None => Err(IncompletePairOfValues),
            },
            ComparisonKind::NotCloseRange => match second {
                Some(second) => Ok(Comparison::NotCloseRange(first, second)),
                None => Err(IncompletePairOfValues),
            },
            ComparisonKind::NotLeftOpenRange => match second {
                Some(second) => Ok(Comparison::NotLeftOpenRange(first, second)),
                None => Err(IncompletePairOfValues),
            },
            ComparisonKind::NotRightOpenRange => match second {
                Some(second) => Ok(Comparison::NotRightOpenRange(first, second)),
                None => Err(IncompletePairOfValues),
            },
        }
    }

    /// The kind of the (first) value.
    pub fn value_kind(&self) -> (k: ValueKind)
        ensures
            k == self.first_value().kind(),
    {
        match self {
            Comparison::Less(v) | Comparison::Equal(v) | Comparison::Greater(v)
            | Comparison::LessOrEqual(v) | Comparison::GreaterOrEqual(v) | Comparison::Contain(v)
            | Comparison::OpenRange(v, _) | Comparison::CloseRange(v, _)
            | Comparison::LeftOpenRange(v, _) | Comparison::RightOpenRange(v, _)
            | Comparison::NotEqual(v) | Comparison::NotContain(v) | Comparison::NotOpenRange(v, _)
            | Comparison::NotCloseRange(v, _) | Comparison::NotLeftOpenRange(v, _)
            | Comparison::NotRightOpenRange(v, _) => match v {
                Value::String(_) => ValueKind::String,
                Value::Integer(_) => ValueKind::Integer,
                Value::Float(_) => ValueKind::Float,
            },
        }
    }

    /// The kind of the comparison.
    pub fn comparison_kind(&self) -> (k: ComparisonKind)
        ensures
            k == self.kind(),
    {
        match self {
            Comparison::Less(..) => ComparisonKind::Less,
            Comparison::Equal(..) => ComparisonKind::Equal,
            Comparison::Greater(..) => ComparisonKind::Greater,
            Comparison::LessOrEqual(..) => ComparisonKind::LessOrEqual,
            Comparison::GreaterOrEqual(..) => ComparisonKind::GreaterOrEqual,
            Comparison::Contain(..) => ComparisonKind::Contain,
            Comparison::OpenRange(..) => ComparisonKind::OpenRange,
            Comparison::CloseRange(..) => ComparisonKind::CloseRange,
            Comparison::LeftOpenRange(..) => ComparisonKind::LeftOpenRange,
            Comparison::RightOpenRange(..) => ComparisonKind::RightOpenRange,
            Comparison::NotEqual(..) => ComparisonKind::NotEqual,
            Comparison::NotContain(..) => ComparisonKind::NotContain,
            Comparison::NotOpenRange(..) => ComparisonKind::NotOpenRange,
            Comparison::NotCloseRange(..) => ComparisonKind::NotCloseRange,
            Comparison::NotLeftOpenRange(..) => ComparisonKind::NotLeftOpenRange,
            Comparison::NotRightOpenRange(..) => ComparisonKind::NotRightOpenRange,
        }
    }

    /// A copy of the (first) value.
    pub fn first(&self) -> (v: Value)
        ensures
            v == self.first_value(),
    {
        match self {
            Comparison::Less(v) | Comparison::Equal(v) | Comparison::Greater(v)
            | Comparison::LessOrEqual(v) | Comparison::GreaterOrEqual(v) | Comparison::Contain(v)
            | Comparison::NotEqual(v) | Comparison::NotContain(v) | Comparison::OpenRange(v, _)
            | Comparison::CloseRange(v, _) | Comparison::LeftOpenRange(v, _)
            | Comparison::RightOpenRange(v, _) | Comparison::NotOpenRange(v, _)
            | Comparison::NotCloseRange(v, _) | Comparison::NotLeftOpenRange(v, _)
            | Comparison::NotRightOpenRange(v, _) => v.clone(),
        }
    }

    /// A copy of the second value of a range; `None` for a single-value kind.
    pub fn second(&self) -> (v: Option<Value>)
        ensures
            v == self.second_value(),
    {
        match self {
            Comparison::OpenRange(_, v) | Comparison::CloseRange(_, v)
            | Comparison::LeftOpenRange(_, v) | Comparison::RightOpenRange(_, v)
            | Comparison::NotOpenRange(_, v) | Comparison::NotCloseRange(_, v)
            | Comparison::NotLeftOpenRange(_, v) | Comparison::NotRightOpenRange(_, v) => Some(
                v.clone(),
            ),
            _ => None,
        }
    }
}

/// A comparison is rebuilt from its kind and its values.
pub proof fn law_comparison_rebuilt(c: Comparison, r: Result<Comparison, IncompletePairOfValues>)
    requires
        r is Err <==> c.kind().is_range() && c.second_value() is None,
        r matches Ok(d) ==> d.kind() == c.kind() && d.first_value() == c.first_value()
            && d.second_value() == (if c.kind().is_range() {
            c.second_value()
        } else {
            None
        }),
    ensures
        r == Ok::<Comparison, IncompletePairOfValues>(c),
{
}

/// A range comparison always holds its second value; a single-value one never does.
pub proof fn law_second_value_iff_range(c: Comparison)
    ensures
        c.second_value() is Some <==> c.kind().is_range(),
{
}

} // verus!
