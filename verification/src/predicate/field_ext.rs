//! Predicates that ask about a field.

use vstd::prelude::*;
use crate::cacheable::Field;
use crate::json::binary64::NumberOrder;
use crate::predicate::basic::BasicPredicate;
use crate::predicate::field_predicate::{Evaluator, FieldPredicate, LookupOp};
use crate::predicate::field_value::{FieldEq, FieldOrd};
use crate::predicate::operand::{show_all, Operand, ShownOperand};
use std::sync::Arc;
use crate::text::{
    contains_codes, ends_with_codes, same_codes, starts_with_codes, text_codes,
};

verus! {

/// A condition on a value.
trait Condition<V>: Send + Sync {
    /// Whether the value meets the condition.
    spec fn meets(&self, value: V) -> bool;

    /// The operand of the condition.
    spec fn carried(&self) -> ShownOperand;

    /// Tells whether the value meets the condition.
    fn check(&self, value: &V) -> (r: bool)
        ensures
            r == self.meets(*value),
    ;

    /// Shows the operand of the condition.
    fn operand(&self) -> (r: Operand<'_>)
        ensures
            r.shown() == self.carried(),
    ;
}

/// Equal to the operand, or not.
struct Equal<V> {
    operand: V,
    expected: bool,
}

impl<V: FieldEq + Send + Sync> Condition<V> for Equal<V> {
    closed spec fn meets(&self, value: V) -> bool {
        value.equals(self.operand) == self.expected
    }

    closed spec fn carried(&self) -> ShownOperand {
        ShownOperand::One(self.operand.shown())
    }

    fn check(&self, value: &V) -> (r: bool) {
        value.same_value(&self.operand) == self.expected
    }

    fn operand(&self) -> (r: Operand<'_>) {
        Operand::One(self.operand.show())
    }
}

/// Whether `order` is what `op` asks for.
pub open spec fn order_meets(op: LookupOp, order: Option<NumberOrder>) -> bool {
    match op {
        LookupOp::Gt => order == Some(NumberOrder::Greater),
        LookupOp::Gte => order == Some(NumberOrder::Greater) || order == Some(NumberOrder::Equal),
        LookupOp::Lt => order == Some(NumberOrder::Less),
        LookupOp::Lte => order == Some(NumberOrder::Less) || order == Some(NumberOrder::Equal),
        _ => false,
    }
}

/// Tells whether `order` is what `op` asks for.
fn meets_order(op: LookupOp, order: Option<NumberOrder>) -> (r: bool)
    ensures
        r == order_meets(op, order),
{
    match order {
        Some(order) => match op {
            LookupOp::Gt => order == NumberOrder::Greater,
            LookupOp::Gte => order != NumberOrder::Less,
            LookupOp::Lt => order == NumberOrder::Less,
            LookupOp::Lte => order != NumberOrder::Greater,
            _ => false,
        },
        None => false,
    }
}

/// Ordered against the operand.
struct Ordered<V> {
    op: LookupOp,
    operand: V,
}

impl<V: FieldOrd + Send + Sync> Condition<V> for Ordered<V> {
    closed spec fn meets(&self, value: V) -> bool {
        order_meets(self.op, value.order(self.operand))
    }

    closed spec fn carried(&self) -> ShownOperand {
        ShownOperand::One(self.operand.shown())
    }

    fn check(&self, value: &V) -> (r: bool) {
        meets_order(self.op, value.compare(&self.operand))
    }

    fn operand(&self) -> (r: Operand<'_>) {
        Operand::One(self.operand.show())
    }
}

/// Between two operands, both included.
struct Within<V> {
    low: V,
    high: V,
}

impl<V: FieldOrd + Send + Sync> Condition<V> for Within<V> {
    closed spec fn meets(&self, value: V) -> bool {
        order_meets(LookupOp::Gte, value.order(self.low)) && order_meets(
            LookupOp::Lte,
            value.order(self.high),
        )
    }

    closed spec fn carried(&self) -> ShownOperand {
        ShownOperand::Pair(self.low.shown(), self.high.shown())
    }

    fn check(&self, value: &V) -> (r: bool) {
        meets_order(LookupOp::Gte, value.compare(&self.low)) && meets_order(
            LookupOp::Lte,
            value.compare(&self.high),
        )
    }

    fn operand(&self) -> (r: Operand<'_>) {
        Operand::Pair(self.low.show(), self.high.show())
    }
}

/// Equal to one of the operands, or to none.
struct Member<V> {
    operands: Vec<V>,
    expected: bool,
}

/// `value` equals one of `operands`.
pub open spec fn is_one_of<V: FieldEq>(operands: Seq<V>, value: V) -> bool {
    exists|i: int| 0 <= i < operands.len() && (#[trigger] operands[i]).equals(value)
}

impl<V: FieldEq + Send + Sync> Condition<V> for Member<V> {
    closed spec fn meets(&self, value: V) -> bool {
        is_one_of(self.operands@, value) == self.expected
    }

    closed spec fn carried(&self) -> ShownOperand {
        ShownOperand::List(crate::predicate::operand::shown_all(self.operands@))
    }

    fn check(&self, value: &V) -> (r: bool) {
        let mut i: usize = 0;
        while i < self.operands.len()
            invariant
                i <= self.operands@.len(),
                forall|j: int| 0 <= j < i ==> !(#[trigger] self.operands@[j]).equals(*value),
            decreases self.operands@.len() - i,
        {
            if self.operands[i].same_value(value) {
                return self.expected;
            }
            i += 1;
        }
        !self.expected
    }

    fn operand(&self) -> (r: Operand<'_>) {
        Operand::List(show_all(&self.operands))
    }
}

/// Whether a text is what `op` asks for, given the codes of both.
pub open spec fn text_meets(op: LookupOp, text: Seq<u32>, needle: Seq<u32>) -> bool {
    match op {
        LookupOp::Contains | LookupOp::IContains => exists|i: int|
            crate::text::stands_at(text, needle, i),
        LookupOp::StartsWith | LookupOp::IStartsWith => crate::text::stands_at(text, needle, 0),
        LookupOp::EndsWith | LookupOp::IEndsWith => crate::text::stands_at(
            text,
            needle,
            text.len() - needle.len(),
        ),
        _ => text == needle,
    }
}

/// Matched with the operand, by the codes of its characters.
struct TextMatch {
    op: LookupOp,
    fold: bool,
    needle: Vec<u32>,
    given: String,
}

impl Condition<String> for TextMatch {
    closed spec fn meets(&self, value: String) -> bool {
        text_meets(self.op, crate::text::codes(value@, self.fold), self.needle@)
    }

    closed spec fn carried(&self) -> ShownOperand {
        ShownOperand::Text(self.given@)
    }

    fn check(&self, value: &String) -> (r: bool) {
        let text = text_codes(value.as_str(), self.fold);
        match self.op {
            LookupOp::Contains | LookupOp::IContains => contains_codes(&text, &self.needle),
            LookupOp::StartsWith | LookupOp::IStartsWith => starts_with_codes(&text, &self.needle),
            LookupOp::EndsWith | LookupOp::IEndsWith => ends_with_codes(&text, &self.needle),
            _ => same_codes(&text, &self.needle),
        }
    }

    fn operand(&self) -> (r: Operand<'_>) {
        Operand::Text(self.given.as_str())
    }
}

/// A condition on a field.
#[verifier::reject_recursive_types(T)]
#[verifier::reject_recursive_types(V)]
struct FieldTest<T, V, C> {
    field: Field<T, V>,
    condition: C,
}

impl<
    T: Send + Sync + 'static,
    V: Send + Sync + 'static,
    C: Condition<V>,
> Evaluator<T> for FieldTest<T, V, C> {
    closed spec fn holds(&self, value: T) -> bool {
        self.condition.meets(self.field.of(value))
    }

    closed spec fn carried(&self) -> ShownOperand {
        self.condition.carried()
    }

    fn evaluate(&self, value: &T) -> (r: bool) {
        self.condition.check(self.field.get(value))
    }

    fn operand(&self) -> (r: Operand<'_>) {
        self.condition.operand()
    }
}

/// A condition on a field that may be absent; an absent one does not meet it.
#[verifier::reject_recursive_types(T)]
#[verifier::reject_recursive_types(V)]
struct PresentTest<T, V, C> {
    field: Field<T, Option<V>>,
    condition: C,
}

impl<
    T: Send + Sync + 'static,
    V: Send + Sync + 'static,
    C: Condition<V>,
> Evaluator<T> for PresentTest<T, V, C> {
    closed spec fn holds(&self, value: T) -> bool {
        match self.field.of(value) {
            Some(present) => self.condition.meets(present),
            None => false,
        }
    }

    closed spec fn carried(&self) -> ShownOperand {
        self.condition.carried()
    }

    fn evaluate(&self, value: &T) -> (r: bool) {
        match self.field.get(value) {
            Some(present) => self.condition.check(present),
            None => false,
        }
    }

    fn operand(&self) -> (r: Operand<'_>) {
        self.condition.operand()
    }
}

/// Whether a field is present.
#[verifier::reject_recursive_types(T)]
#[verifier::reject_recursive_types(V)]
struct NullTest<T, V> {
    field: Field<T, Option<V>>,
    present: bool,
}

impl<T: Send + Sync + 'static, V: Send + Sync + 'static> Evaluator<T> for NullTest<T, V> {
    closed spec fn holds(&self, value: T) -> bool {
        (self.field.of(value) is Some) == self.present
    }

    closed spec fn carried(&self) -> ShownOperand {
        ShownOperand::Nothing
    }

    fn evaluate(&self, value: &T) -> (r: bool) {
        self.field.get(value).is_some() == self.present
    }

    fn operand(&self) -> (r: Operand<'_>) {
        Operand::Nothing
    }
}

/// `p` asks `op` of the field named `name`.
pub open spec fn asks<T>(p: BasicPredicate<T>, name: Seq<char>, op: LookupOp) -> bool {
    p matches BasicPredicate::Field(predicate) && predicate.name() == name && predicate.operator()
        == op
}

/// `p` carries the operand.
pub open spec fn carries<T>(p: BasicPredicate<T>, operand: ShownOperand) -> bool {
    p matches BasicPredicate::Field(predicate) && predicate.carried() == operand
}

/// Makes a predicate of a condition on a field.
fn field_test<
    T: Send + Sync + 'static,
    V: Send + Sync + 'static,
    C: Condition<V> + 'static,
>(field: &Field<T, V>, op: LookupOp, condition: C) -> (r: BasicPredicate<T>)
    ensures
        asks(r, field.spec_name(), op),
        carries(r, condition.carried()),
        forall|value: T| #[trigger] r.holds(value) == condition.meets(field.of(value)),
{
    let test: FieldTest<T, V, C> = FieldTest { field: field.clone(), condition };
    let ghost t = test;
    let boxed: Box<dyn Evaluator<T>> = Box::new(test);
    assert forall|value: T| #[trigger] boxed.holds(value) == t.holds(value) by {}
    assert(boxed.carried() == t.carried());
    let shared = Arc::new(boxed);
    let predicate = FieldPredicate::new(field.name(), op, shared);
    assert forall|value: T| #[trigger] predicate.holds(value) == condition.meets(
        field.of(value),
    ) by {
        assert(predicate.holds(value) == shared.holds(value));
    }
    BasicPredicate::Field(predicate)
}

/// Makes a predicate of a condition on a field that may be absent.
fn present_test<
    T: Send + Sync + 'static,
    V: Send + Sync + 'static,
    C: Condition<V> + 'static,
>(field: &Field<T, Option<V>>, op: LookupOp, condition: C) -> (r: BasicPredicate<T>)
    ensures
        asks(r, field.spec_name(), op),
        carries(r, condition.carried()),
        forall|value: T| #[trigger]
            r.holds(value) == (field.of(value) matches Some(present) && condition.meets(present)),
{
    let test: PresentTest<T, V, C> = PresentTest { field: field.clone(), condition };
    let ghost t = test;
    let boxed: Box<dyn Evaluator<T>> = Box::new(test);
    assert forall|value: T| #[trigger] boxed.holds(value) == t.holds(value) by {}
    assert(boxed.carried() == t.carried());
    let shared = Arc::new(boxed);
    let predicate = FieldPredicate::new(field.name(), op, shared);
    assert forall|value: T| #[trigger] predicate.holds(value) == (field.of(value) matches Some(
        present,
    ) && condition.meets(present)) by {
        assert(predicate.holds(value) == shared.holds(value));
    }
    BasicPredicate::Field(predicate)
}

impl<T: Send + Sync + 'static, V: FieldEq + Send + Sync + 'static> Field<T, V> {
    /// Passes where the field equals `val`.
    pub fn eq(&self, val: V) -> (r: BasicPredicate<T>)
        ensures
            asks(r, self.spec_name(), LookupOp::Eq),
            carries(r, ShownOperand::One(val.shown())),
            forall|value: T| #[trigger] r.holds(value) == self.of(value).equals(val),
    {
        field_test(self, LookupOp::Eq, Equal { operand: val, expected: true })
    }

    /// Passes where the field differs from `val`.
    pub fn neq(&self, val: V) -> (r: BasicPredicate<T>)
        ensures
            asks(r, self.spec_name(), LookupOp::Neq),
            carries(r, ShownOperand::One(val.shown())),
            forall|value: T| #[trigger] r.holds(value) == !self.of(value).equals(val),
    {
        field_test(self, LookupOp::Neq, Equal { operand: val, expected: false })
    }

    /// Passes where the field equals one of `vals`.
    pub fn in_(&self, vals: Vec<V>) -> (r: BasicPredicate<T>)
        ensures
            asks(r, self.spec_name(), LookupOp::In),
            carries(r, ShownOperand::List(crate::predicate::operand::shown_all(vals@))),
            forall|value: T| #[trigger] r.holds(value) == is_one_of(vals@, self.of(value)),
    {
        field_test(self, LookupOp::In, Member { operands: vals, expected: true })
    }

    /// Passes where the field equals none of `vals`.
    pub fn not_in(&self, vals: Vec<V>) -> (r: BasicPredicate<T>)
        ensures
            asks(r, self.spec_name(), LookupOp::NotIn),
            carries(r, ShownOperand::List(crate::predicate::operand::shown_all(vals@))),
            forall|value: T| #[trigger] r.holds(value) == !is_one_of(vals@, self.of(value)),
    {
        field_test(self, LookupOp::NotIn, Member { operands: vals, expected: false })
    }
}

impl<T: Send + Sync + 'static, V: FieldOrd + Send + Sync + 'static> Field<T, V> {
    /// Passes where the field is greater than `val`.
    pub fn gt(&self, val: V) -> (r: BasicPredicate<T>)
        ensures
            asks(r, self.spec_name(), LookupOp::Gt),
            carries(r, ShownOperand::One(val.shown())),
            forall|value: T| #[trigger]
                r.holds(value) == order_meets(LookupOp::Gt, self.of(value).order(val)),
    {
        field_test(self, LookupOp::Gt, Ordered { op: LookupOp::Gt, operand: val })
    }

    /// Passes where the field is at least `val`.
    pub fn gte(&self, val: V) -> (r: BasicPredicate<T>)
        ensures
            asks(r, self.spec_name(), LookupOp::Gte),
            carries(r, ShownOperand::One(val.shown())),
            forall|value: T| #[trigger]
                r.holds(value) == order_meets(LookupOp::Gte, self.of(value).order(val)),
    {
        field_test(self, LookupOp::Gte, Ordered { op: LookupOp::Gte, operand: val })
    }

    /// Passes where the field is less than `val`.
    pub fn lt(&self, val: V) -> (r: BasicPredicate<T>)
        ensures
            asks(r, self.spec_name(), LookupOp::Lt),
            carries(r, ShownOperand::One(val.shown())),
            forall|value: T| #[trigger]
                r.holds(value) == order_meets(LookupOp::Lt, self.of(value).order(val)),
    {
        field_test(self, LookupOp::Lt, Ordered { op: LookupOp::Lt, operand: val })
    }

    /// Passes where the field is at most `val`.
    pub fn lte(&self, val: V) -> (r: BasicPredicate<T>)
        ensures
            asks(r, self.spec_name(), LookupOp::Lte),
            carries(r, ShownOperand::One(val.shown())),
            forall|value: T| #[trigger]
                r.holds(value) == order_meets(LookupOp::Lte, self.of(value).order(val)),
    {
        field_test(self, LookupOp::Lte, Ordered { op: LookupOp::Lte, operand: val })
    }

    /// Passes where the field lies between `low` and `high`, both included.
    pub fn between(&self, low: V, high: V) -> (r: BasicPredicate<T>)
        ensures
            asks(r, self.spec_name(), LookupOp::Between),
            carries(r, ShownOperand::Pair(low.shown(), high.shown())),
            forall|value: T| #[trigger]
                r.holds(value) == (order_meets(LookupOp::Gte, self.of(value).order(low))
                    && order_meets(LookupOp::Lte, self.of(value).order(high))),
    {
        field_test(self, LookupOp::Between, Within { low, high })
    }
}

/// Makes a predicate of whether a field is present.
fn null_test<T: Send + Sync + 'static, V: Send + Sync + 'static>(
    field: &Field<T, Option<V>>,
    op: LookupOp,
    present: bool,
) -> (r: BasicPredicate<T>)
    ensures
        asks(r, field.spec_name(), op),
        carries(r, ShownOperand::Nothing),
        forall|value: T| #[trigger] r.holds(value) == ((field.of(value) is Some) == present),
{
    let test: NullTest<T, V> = NullTest { field: field.clone(), present };
    let ghost t = test;
    let boxed: Box<dyn Evaluator<T>> = Box::new(test);
    assert forall|value: T| #[trigger] boxed.holds(value) == t.holds(value) by {}
    assert(boxed.carried() == t.carried());
    let shared = Arc::new(boxed);
    let predicate = FieldPredicate::new(field.name(), op, shared);
    assert forall|value: T| #[trigger] predicate.holds(value) == ((field.of(value) is Some)
        == present) by {
        assert(predicate.holds(value) == shared.holds(value));
    }
    BasicPredicate::Field(predicate)
}

impl<T: Send + Sync + 'static, U: Send + Sync + 'static> Field<T, Option<U>> {
    /// Passes where the field is absent.
    pub fn is_null(&self) -> (r: BasicPredicate<T>)
        ensures
            asks(r, self.spec_name(), LookupOp::IsNull),
            carries(r, ShownOperand::Nothing),
            forall|value: T| #[trigger] r.holds(value) == (self.of(value) is None),
    {
        null_test(self, LookupOp::IsNull, false)
    }

    /// Passes where the field is present.
    pub fn is_not_null(&self) -> (r: BasicPredicate<T>)
        ensures
            asks(r, self.spec_name(), LookupOp::IsNotNull),
            carries(r, ShownOperand::Nothing),
            forall|value: T| #[trigger] r.holds(value) == (self.of(value) is Some),
    {
        null_test(self, LookupOp::IsNotNull, true)
    }

    /// Asks about the field where it is present.
    pub fn some(&self) -> (r: PresentField<T, U>)
        ensures
            r.inner() == *self,
    {
        PresentField { field: self.clone() }
    }
}

/// A field that may be absent, asked about where it is present. Where it is
/// absent, no predicate passes.
#[verifier::reject_recursive_types(T)]
#[verifier::reject_recursive_types(V)]
pub struct PresentField<T, V> {
    field: Field<T, Option<V>>,
}

impl<T, V> PresentField<T, V> {
    /// The field.
    pub closed spec fn inner(&self) -> Field<T, Option<V>> {
        self.field
    }
}

impl<T, V> Clone for PresentField<T, V> {
    fn clone(&self) -> (r: Self)
        ensures
            r == *self,
    {
        PresentField { field: self.field.clone() }
    }
}

impl<T: Send + Sync + 'static, V: FieldEq + Send + Sync + 'static> PresentField<T, V> {
    /// Passes where the field is present and equals `val`.
    pub fn eq(&self, val: V) -> (r: BasicPredicate<T>)
        ensures
            asks(r, self.inner().spec_name(), LookupOp::Eq),
            carries(r, ShownOperand::One(val.shown())),
            forall|value: T| #[trigger]
                r.holds(value) == (self.inner().of(value) matches Some(present)
                    && present.equals(val)),
    {
        present_test(&self.field, LookupOp::Eq, Equal { operand: val, expected: true })
    }

    /// Passes where the field is present and differs from `val`.
    pub fn neq(&self, val: V) -> (r: BasicPredicate<T>)
        ensures
            asks(r, self.inner().spec_name(), LookupOp::Neq),
            carries(r, ShownOperand::One(val.shown())),
            forall|value: T| #[trigger]
                r.holds(value) == (self.inner().of(value) matches Some(present)
                    && !present.equals(val)),
    {
        present_test(&self.field, LookupOp::Neq, Equal { operand: val, expected: false })
    }

    /// Passes where the field is present and equals one of `vals`.
    pub fn in_(&self, vals: Vec<V>) -> (r: BasicPredicate<T>)
        ensures
            asks(r, self.inner().spec_name(), LookupOp::In),
            carries(r, ShownOperand::List(crate::predicate::operand::shown_all(vals@))),
            forall|value: T| #[trigger]
                r.holds(value) == (self.inner().of(value) matches Some(present)
                    && is_one_of(vals@, present)),
    {
        present_test(&self.field, LookupOp::In, Member { operands: vals, expected: true })
    }

    /// Passes where the field is present and equals none of `vals`.
    pub fn not_in(&self, vals: Vec<V>) -> (r: BasicPredicate<T>)
        ensures
            asks(r, self.inner().spec_name(), LookupOp::NotIn),
            carries(r, ShownOperand::List(crate::predicate::operand::shown_all(vals@))),
            forall|value: T| #[trigger]
                r.holds(value) == (self.inner().of(value) matches Some(present)
                    && !is_one_of(vals@, present)),
    {
        present_test(&self.field, LookupOp::NotIn, Member { operands: vals, expected: false })
    }
}

impl<T: Send + Sync + 'static, V: FieldOrd + Send + Sync + 'static> PresentField<T, V> {
    /// Passes where the field is present and is greater than `val`.
    pub fn gt(&self, val: V) -> (r: BasicPredicate<T>)
        ensures
            asks(r, self.inner().spec_name(), LookupOp::Gt),
            carries(r, ShownOperand::One(val.shown())),
            forall|value: T| #[trigger]
                r.holds(value) == (self.inner().of(value) matches Some(present) && order_meets(
                    LookupOp::Gt,
                    present.order(val),
                )),
    {
        present_test(&self.field, LookupOp::Gt, Ordered { op: LookupOp::Gt, operand: val })
    }

    /// Passes where the field is present and is at least `val`.
    pub fn gte(&self, val: V) -> (r: BasicPredicate<T>)
        ensures
            asks(r, self.inner().spec_name(), LookupOp::Gte),
            carries(r, ShownOperand::One(val.shown())),
            forall|value: T| #[trigger]
                r.holds(value) == (self.inner().of(value) matches Some(present) && order_meets(
                    LookupOp::Gte,
                    present.order(val),
                )),
    {
        present_test(&self.field, LookupOp::Gte, Ordered { op: LookupOp::Gte, operand: val })
    }

    /// Passes where the field is present and is less than `val`.
    pub fn lt(&self, val: V) -> (r: BasicPredicate<T>)
        ensures
            asks(r, self.inner().spec_name(), LookupOp::Lt),
            carries(r, ShownOperand::One(val.shown())),
            forall|value: T| #[trigger]
                r.holds(value) == (self.inner().of(value) matches Some(present) && order_meets(
                    LookupOp::Lt,
                    present.order(val),
                )),
    {
        present_test(&self.field, LookupOp::Lt, Ordered { op: LookupOp::Lt, operand: val })
    }

    /// Passes where the field is present and is at most `val`.
    pub fn lte(&self, val: V) -> (r: BasicPredicate<T>)
        ensures
            asks(r, self.inner().spec_name(), LookupOp::Lte),
            carries(r, ShownOperand::One(val.shown())),
            forall|value: T| #[trigger]
                r.holds(value) == (self.inner().of(value) matches Some(present) && order_meets(
                    LookupOp::Lte,
                    present.order(val),
                )),
    {
        present_test(&self.field, LookupOp::Lte, Ordered { op: LookupOp::Lte, operand: val })
    }

    /// Passes where the field is present and lies between `low` and `high`, both included.
    pub fn between(&self, low: V, high: V) -> (r: BasicPredicate<T>)
        ensures
            asks(r, self.inner().spec_name(), LookupOp::Between),
            carries(r, ShownOperand::Pair(low.shown(), high.shown())),
            forall|value: T| #[trigger]
                r.holds(value) == (self.inner().of(value) matches Some(present) && order_meets(
                    LookupOp::Gte,
                    present.order(low),
                ) && order_meets(LookupOp::Lte, present.order(high))),
    {
        present_test(&self.field, LookupOp::Between, Within { low, high })
    }
}

impl<T: Send + Sync + 'static> Field<T, String> {
    /// Passes where the field contains `needle`.
    pub fn contains(&self, needle: &str) -> (r: BasicPredicate<T>)
        ensures
            asks(r, self.spec_name(), LookupOp::Contains),
            carries(r, ShownOperand::Text(needle@)),
            forall|value: T| #[trigger]
                r.holds(value) == text_meets(
                    LookupOp::Contains,
                    crate::text::codes(self.of(value)@, false),
                    crate::text::codes(needle@, false),
                ),
    {
        let given = needle.to_owned();
        let needle = text_codes(needle, false);
        field_test(self, LookupOp::Contains, TextMatch { op: LookupOp::Contains, fold: false, needle, given })
    }

    /// Passes where the field contains `needle`, ASCII case aside.
    pub fn icontains(&self, needle: &str) -> (r: BasicPredicate<T>)
        ensures
            asks(r, self.spec_name(), LookupOp::IContains),
            carries(r, ShownOperand::Text(needle@)),
            forall|value: T| #[trigger]
                r.holds(value) == text_meets(
                    LookupOp::IContains,
                    crate::text::codes(self.of(value)@, true),
                    crate::text::codes(needle@, true),
                ),
    {
        let given = needle.to_owned();
        let needle = text_codes(needle, true);
        field_test(self, LookupOp::IContains, TextMatch { op: LookupOp::IContains, fold: true, needle, given })
    }

    /// Passes where the field starts with `prefix`.
    pub fn starts_with(&self, prefix: &str) -> (r: BasicPredicate<T>)
        ensures
            asks(r, self.spec_name(), LookupOp::StartsWith),
            carries(r, ShownOperand::Text(prefix@)),
            forall|value: T| #[trigger]
                r.holds(value) == text_meets(
                    LookupOp::StartsWith,
                    crate::text::codes(self.of(value)@, false),
                    crate::text::codes(prefix@, false),
                ),
    {
        let given = prefix.to_owned();
        let needle = text_codes(prefix, false);
        field_test(self, LookupOp::StartsWith, TextMatch { op: LookupOp::StartsWith, fold: false, needle, given })
    }

    /// Passes where the field starts with `prefix`, ASCII case aside.
    pub fn istarts_with(&self, prefix: &str) -> (r: BasicPredicate<T>)
        ensures
            asks(r, self.spec_name(), LookupOp::IStartsWith),
            carries(r, ShownOperand::Text(prefix@)),
            forall|value: T| #[trigger]
                r.holds(value) == text_meets(
                    LookupOp::IStartsWith,
                    crate::text::codes(self.of(value)@, true),
                    crate::text::codes(prefix@, true),
                ),
            forall|value: T| #[trigger]
                r.holds(value) == crate::text_bytes::has_prefix(
                    crate::text_bytes::folded_bytes(
                        vstd::utf8::encode_utf8(self.of(value)@),
                    ),
                    crate::text_bytes::folded_bytes(vstd::utf8::encode_utf8(prefix@)),
                ),
    {
        let given = prefix.to_owned();
        let needle = text_codes(prefix, true);
        let r = field_test(self, LookupOp::IStartsWith, TextMatch { op: LookupOp::IStartsWith, fold: true, needle, given });
        assert forall|value: T| #[trigger] r.holds(value) == crate::text_bytes::has_prefix(
            crate::text_bytes::folded_bytes(vstd::utf8::encode_utf8(self.of(value)@)),
            crate::text_bytes::folded_bytes(vstd::utf8::encode_utf8(prefix@)),
        ) by {
            crate::text_bytes::folded_prefix_is_one_of_bytes(self.of(value)@, prefix@);
        }
        r
    }

    /// Passes where the field ends with `suffix`.
    pub fn ends_with(&self, suffix: &str) -> (r: BasicPredicate<T>)
        ensures
            asks(r, self.spec_name(), LookupOp::EndsWith),
            carries(r, ShownOperand::Text(suffix@)),
            forall|value: T| #[trigger]
                r.holds(value) == text_meets(
                    LookupOp::EndsWith,
                    crate::text::codes(self.of(value)@, false),
                    crate::text::codes(suffix@, false),
                ),
    {
        let given = suffix.to_owned();
        let needle = text_codes(suffix, false);
        field_test(self, LookupOp::EndsWith, TextMatch { op: LookupOp::EndsWith, fold: false, needle, given })
    }

    /// Passes where the field ends with `suffix`, ASCII case aside.
    pub fn iends_with(&self, suffix: &str) -> (r: BasicPredicate<T>)
        ensures
            asks(r, self.spec_name(), LookupOp::IEndsWith),
            carries(r, ShownOperand::Text(suffix@)),
            forall|value: T| #[trigger]
                r.holds(value) == text_meets(
                    LookupOp::IEndsWith,
                    crate::text::codes(self.of(value)@, true),
                    crate::text::codes(suffix@, true),
                ),
    {
        let given = suffix.to_owned();
        let needle = text_codes(suffix, true);
        field_test(self, LookupOp::IEndsWith, TextMatch { op: LookupOp::IEndsWith, fold: true, needle, given })
    }

    /// Passes where the field equals `val`, ASCII case aside.
    pub fn iexact(&self, val: &str) -> (r: BasicPredicate<T>)
        ensures
            asks(r, self.spec_name(), LookupOp::IExact),
            carries(r, ShownOperand::Text(val@)),
            forall|value: T| #[trigger]
                r.holds(value) == text_meets(
                    LookupOp::IExact,
                    crate::text::codes(self.of(value)@, true),
                    crate::text::codes(val@, true),
                ),
    {
        let given = val.to_owned();
        let needle = text_codes(val, true);
        field_test(self, LookupOp::IExact, TextMatch { op: LookupOp::IExact, fold: true, needle, given })
    }
}

/// A field passes `between` exactly where it passes `gte` and `lte`.
pub proof fn between_is_gte_and_lte<T: Send + Sync + 'static, V: FieldOrd + Send + Sync + 'static>(
    field: Field<T, V>,
    low: V,
    high: V,
    between: BasicPredicate<T>,
    gte: BasicPredicate<T>,
    lte: BasicPredicate<T>,
    value: T,
)
    requires
        forall|value: T| #[trigger]
            between.holds(value) == (order_meets(LookupOp::Gte, field.of(value).order(low))
                && order_meets(LookupOp::Lte, field.of(value).order(high))),
        forall|value: T| #[trigger]
            gte.holds(value) == order_meets(LookupOp::Gte, field.of(value).order(low)),
        forall|value: T| #[trigger]
            lte.holds(value) == order_meets(LookupOp::Lte, field.of(value).order(high)),
    ensures
        between.holds(value) == (gte.holds(value) && lte.holds(value)),
{
}

/// Whatever is asked for with case passes without: a text that contains another
/// contains it with ASCII case aside too.
pub proof fn folding_only_widens(text: Seq<char>, needle: Seq<char>, i: int)
    requires
        crate::text::stands_at(
            crate::text::codes(text, false),
            crate::text::codes(needle, false),
            i,
        ),
    ensures
        crate::text::stands_at(crate::text::codes(text, true), crate::text::codes(needle, true), i),
{
    let n = needle.len() as int;
    let plain = crate::text::codes(text, false).subrange(i, i + n);
    let folded = crate::text::codes(text, true).subrange(i, i + n);
    assert forall|j: int| 0 <= j < n implies folded[j] == crate::text::codes(needle, true)[j] by {
        assert(plain[j] == crate::text::codes(needle, false)[j]);
        vstd::utf8::char_u32_cast(text[i + j], text[i + j] as u32);
        vstd::utf8::char_u32_cast(needle[j], needle[j] as u32);
    }
    assert(folded =~= crate::text::codes(needle, true));
}

/// Whatever starts with a prefix starts with it with ASCII case aside too.
pub proof fn starting_with_case_is_starting_without<T: Send + Sync + 'static>(
    field: Field<T, String>,
    prefix: Seq<char>,
    with_case: BasicPredicate<T>,
    without_case: BasicPredicate<T>,
    value: T,
)
    requires
        with_case.holds(value) == text_meets(
            LookupOp::StartsWith,
            crate::text::codes(field.of(value)@, false),
            crate::text::codes(prefix, false),
        ),
        without_case.holds(value) == text_meets(
            LookupOp::IStartsWith,
            crate::text::codes(field.of(value)@, true),
            crate::text::codes(prefix, true),
        ),
    ensures
        with_case.holds(value) ==> without_case.holds(value),
{
    if with_case.holds(value) {
        folding_only_widens(field.of(value)@, prefix, 0);
    }
}

} // verus!
