//! What a predicate compares a field with.

use vstd::prelude::*;
use vstd::string::*;
use crate::jsahibon::{JFiniteF64, JSahibON};
use crate::predicate::jsahibon::JSahibONPredicateBody;

verus! {

/// What a value of an operand stands for.
pub enum ShownValue {
    /// An integer.
    Number(int),
    /// A truth value.
    Flag(bool),
    /// A character, by its code.
    Character(u32),
    /// A finite binary64 number.
    Float(JFiniteF64),
    /// A text.
    Text(Seq<char>),
    /// A JSON value.
    Json(JSahibON),
    /// An absent value.
    Absent,
    /// A value that might have been absent.
    Present(Box<ShownValue>),
    /// Two values.
    Both(Box<ShownValue>, Box<ShownValue>),
    /// A value of a type that does not show its values.
    Opaque,
}

/// What an operand stands for.
pub enum ShownOperand {
    /// No operand.
    Nothing,
    /// One value.
    One(ShownValue),
    /// The lower and the upper value.
    Pair(ShownValue, ShownValue),
    /// Values to choose from.
    List(Seq<ShownValue>),
    /// A text as it was given.
    Text(Seq<char>),
    /// A condition on a JSON value.
    Body(JSahibONPredicateBody),
}

/// A value of an operand.
#[derive(Debug)]
pub enum OperandValue<'a> {
    /// A signed integer.
    Signed(i128),
    /// An unsigned integer.
    Unsigned(u128),
    /// A truth value.
    Flag(bool),
    /// A character, by its code.
    Character(u32),
    /// A finite binary64 number.
    Float(JFiniteF64),
    /// A text.
    Text(&'a str),
    /// A JSON value.
    Json(&'a JSahibON),
    /// An absent value.
    Absent,
    /// A value that might have been absent.
    Present(Box<OperandValue<'a>>),
    /// Two values.
    Both(Box<OperandValue<'a>>, Box<OperandValue<'a>>),
    /// A value of a type that does not show its values.
    Opaque,
}

/// The operand of a predicate.
#[derive(Debug)]
pub enum Operand<'a> {
    /// No operand.
    Nothing,
    /// One value.
    One(OperandValue<'a>),
    /// The lower and the upper value.
    Pair(OperandValue<'a>, OperandValue<'a>),
    /// Values to choose from.
    List(Vec<OperandValue<'a>>),
    /// A text as it was given.
    Text(&'a str),
    /// A condition on a JSON value.
    Body(&'a JSahibONPredicateBody),
}

impl<'a> OperandValue<'a> {
    /// What the value stands for.
    pub open spec fn shown(&self) -> ShownValue
        decreases self,
    {
        match self {
            OperandValue::Signed(n) => ShownValue::Number(*n as int),
            OperandValue::Unsigned(n) => ShownValue::Number(*n as int),
            OperandValue::Flag(b) => ShownValue::Flag(*b),
            OperandValue::Character(c) => ShownValue::Character(*c),
            OperandValue::Float(f) => ShownValue::Float(*f),
            OperandValue::Text(text) => ShownValue::Text(text@),
            OperandValue::Json(json) => ShownValue::Json(**json),
            OperandValue::Absent => ShownValue::Absent,
            OperandValue::Present(value) => ShownValue::Present(Box::new(value.shown())),
            OperandValue::Both(a, b) => ShownValue::Both(
                Box::new(a.shown()),
                Box::new(b.shown()),
            ),
            OperandValue::Opaque => ShownValue::Opaque,
        }
    }
}

impl<'a> Operand<'a> {
    /// What the operand stands for.
    pub open spec fn shown(&self) -> ShownOperand {
        match self {
            Operand::Nothing => ShownOperand::Nothing,
            Operand::One(value) => ShownOperand::One(value.shown()),
            Operand::Pair(low, high) => ShownOperand::Pair(low.shown(), high.shown()),
            Operand::List(values) => ShownOperand::List(
                Seq::new(values@.len(), |i: int| values@[i].shown()),
            ),
            Operand::Text(text) => ShownOperand::Text(text@),
            Operand::Body(body) => ShownOperand::Body(**body),
        }
    }
}

/// A value that can stand in an operand.
pub trait FieldValue: Sized {
    /// What the value stands for. An implementation says what.
    open spec fn shown(&self) -> ShownValue {
        arbitrary()
    }

    /// Shows the value.
    fn show(&self) -> (r: OperandValue<'_>)
        ensures
            r.shown() == self.shown(),
    ;
}

/// What values stand for, one by one.
pub open spec fn shown_all<V: FieldValue>(values: Seq<V>) -> Seq<ShownValue> {
    Seq::new(values.len(), |i: int| values[i].shown())
}

/// Shows values, one by one.
pub fn show_all<V: FieldValue>(values: &Vec<V>) -> (r: Vec<OperandValue<'_>>)
    ensures
        Seq::new(r@.len(), |i: int| r@[i].shown()) == shown_all(values@),
{
    let mut r: Vec<OperandValue<'_>> = Vec::new();
    let mut i: usize = 0;
    while i < values.len()
        invariant
            i <= values@.len(),
            r@.len() == i,
            forall|j: int| 0 <= j < i ==> (#[trigger] r@[j]).shown() == values@[j].shown(),
        decreases values@.len() - i,
    {
        r.push(values[i].show());
        i += 1;
    }
    assert(Seq::new(r@.len(), |i: int| r@[i].shown()) =~= shown_all(values@));
    r
}

impl FieldValue for i8 {
    open spec fn shown(&self) -> ShownValue {
        ShownValue::Number(*self as int)
    }

    fn show(&self) -> (r: OperandValue<'_>) {
        OperandValue::Signed(*self as i128)
    }
}

impl FieldValue for i16 {
    open spec fn shown(&self) -> ShownValue {
        ShownValue::Number(*self as int)
    }

    fn show(&self) -> (r: OperandValue<'_>) {
        OperandValue::Signed(*self as i128)
    }
}

impl FieldValue for i32 {
    open spec fn shown(&self) -> ShownValue {
        ShownValue::Number(*self as int)
    }

    fn show(&self) -> (r: OperandValue<'_>) {
        OperandValue::Signed(*self as i128)
    }
}

impl FieldValue for i64 {
    open spec fn shown(&self) -> ShownValue {
        ShownValue::Number(*self as int)
    }

    fn show(&self) -> (r: OperandValue<'_>) {
        OperandValue::Signed(*self as i128)
    }
}

impl FieldValue for i128 {
    open spec fn shown(&self) -> ShownValue {
        ShownValue::Number(*self as int)
    }

    fn show(&self) -> (r: OperandValue<'_>) {
        OperandValue::Signed(*self)
    }
}

impl FieldValue for isize {
    open spec fn shown(&self) -> ShownValue {
        ShownValue::Number(*self as int)
    }

    fn show(&self) -> (r: OperandValue<'_>) {
        OperandValue::Signed(*self as i128)
    }
}

impl FieldValue for u8 {
    open spec fn shown(&self) -> ShownValue {
        ShownValue::Number(*self as int)
    }

    fn show(&self) -> (r: OperandValue<'_>) {
        OperandValue::Unsigned(*self as u128)
    }
}

impl FieldValue for u16 {
    open spec fn shown(&self) -> ShownValue {
        ShownValue::Number(*self as int)
    }

    fn show(&self) -> (r: OperandValue<'_>) {
        OperandValue::Unsigned(*self as u128)
    }
}

impl FieldValue for u32 {
    open spec fn shown(&self) -> ShownValue {
        ShownValue::Number(*self as int)
    }

    fn show(&self) -> (r: OperandValue<'_>) {
        OperandValue::Unsigned(*self as u128)
    }
}

impl FieldValue for u64 {
    open spec fn shown(&self) -> ShownValue {
        ShownValue::Number(*self as int)
    }

    fn show(&self) -> (r: OperandValue<'_>) {
        OperandValue::Unsigned(*self as u128)
    }
}

impl FieldValue for u128 {
    open spec fn shown(&self) -> ShownValue {
        ShownValue::Number(*self as int)
    }

    fn show(&self) -> (r: OperandValue<'_>) {
        OperandValue::Unsigned(*self)
    }
}

impl FieldValue for usize {
    open spec fn shown(&self) -> ShownValue {
        ShownValue::Number(*self as int)
    }

    fn show(&self) -> (r: OperandValue<'_>) {
        OperandValue::Unsigned(*self as u128)
    }
}

impl FieldValue for bool {
    open spec fn shown(&self) -> ShownValue {
        ShownValue::Flag(*self)
    }

    fn show(&self) -> (r: OperandValue<'_>) {
        OperandValue::Flag(*self)
    }
}

impl FieldValue for char {
    open spec fn shown(&self) -> ShownValue {
        ShownValue::Character(*self as u32)
    }

    fn show(&self) -> (r: OperandValue<'_>) {
        OperandValue::Character(*self as u32)
    }
}

impl FieldValue for JFiniteF64 {
    open spec fn shown(&self) -> ShownValue {
        ShownValue::Float(*self)
    }

    fn show(&self) -> (r: OperandValue<'_>) {
        OperandValue::Float(*self)
    }
}

impl FieldValue for String {
    open spec fn shown(&self) -> ShownValue {
        ShownValue::Text(self@)
    }

    fn show(&self) -> (r: OperandValue<'_>) {
        OperandValue::Text(self.as_str())
    }
}

impl FieldValue for JSahibON {
    open spec fn shown(&self) -> ShownValue {
        ShownValue::Json(*self)
    }

    fn show(&self) -> (r: OperandValue<'_>) {
        OperandValue::Json(self)
    }
}

impl<V: FieldValue> FieldValue for Option<V> {
    open spec fn shown(&self) -> ShownValue {
        match self {
            Some(value) => ShownValue::Present(Box::new(value.shown())),
            None => ShownValue::Absent,
        }
    }

    fn show(&self) -> (r: OperandValue<'_>) {
        match self {
            Some(value) => OperandValue::Present(Box::new(value.show())),
            None => OperandValue::Absent,
        }
    }
}

impl<A: FieldValue, B: FieldValue> FieldValue for (A, B) {
    open spec fn shown(&self) -> ShownValue {
        ShownValue::Both(Box::new(self.0.shown()), Box::new(self.1.shown()))
    }

    fn show(&self) -> (r: OperandValue<'_>) {
        OperandValue::Both(Box::new(self.0.show()), Box::new(self.1.show()))
    }
}

/// Integers are shown by their values, and every other plain value as what it is.
pub proof fn operands_show_their_values(a: i64, b: u64, p: bool, c: char, s: String)
    ensures
        a.shown() == ShownValue::Number(a as int),
        b.shown() == ShownValue::Number(b as int),
        p.shown() == ShownValue::Flag(p),
        c.shown() == ShownValue::Character(c as u32),
        s.shown() == ShownValue::Text(s@),
        Some(a).shown() == ShownValue::Present(Box::new(ShownValue::Number(a as int))),
        None::<i64>.shown() == ShownValue::Absent,
        (a, b).shown() == ShownValue::Both(
            Box::new(ShownValue::Number(a as int)),
            Box::new(ShownValue::Number(b as int)),
        ),
        forall|n: i8| #[trigger] n.shown() == ShownValue::Number(n as int),
        forall|n: i16| #[trigger] n.shown() == ShownValue::Number(n as int),
        forall|n: i32| #[trigger] n.shown() == ShownValue::Number(n as int),
        forall|n: i128| #[trigger] n.shown() == ShownValue::Number(n as int),
        forall|n: isize| #[trigger] n.shown() == ShownValue::Number(n as int),
        forall|n: u8| #[trigger] n.shown() == ShownValue::Number(n as int),
        forall|n: u16| #[trigger] n.shown() == ShownValue::Number(n as int),
        forall|n: u32| #[trigger] n.shown() == ShownValue::Number(n as int),
        forall|n: u128| #[trigger] n.shown() == ShownValue::Number(n as int),
        forall|n: usize| #[trigger] n.shown() == ShownValue::Number(n as int),
{
}

} // verus!
