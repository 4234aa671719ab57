//! A predicate on one field.

use vstd::prelude::*;
use crate::predicate::jsahibon::JSahibONPredicateBody;
use crate::predicate::operand::{Operand, ShownOperand};
use std::sync::Arc;

verus! {

/// What a predicate asks of a field.
#[derive(Debug, Clone, Copy, PartialEq, Eq, Structural)]
pub enum LookupOp {
    /// The field equals the operand.
    Eq,
    /// The field differs from the operand.
    Neq,
    /// The field is greater than the operand.
    Gt,
    /// The field is at least the operand.
    Gte,
    /// The field is less than the operand.
    Lt,
    /// The field is at most the operand.
    Lte,
    /// The field equals one of the operands.
    In,
    /// The field equals none of the operands.
    NotIn,
    /// The field is absent.
    IsNull,
    /// The field is present.
    IsNotNull,
    /// The field lies between the operands, both included.
    Between,
    /// The field contains the operand.
    Contains,
    /// The field contains the operand, ASCII case aside.
    IContains,
    /// The field starts with the operand.
    StartsWith,
    /// The field starts with the operand, ASCII case aside.
    IStartsWith,
    /// The field ends with the operand.
    EndsWith,
    /// The field ends with the operand, ASCII case aside.
    IEndsWith,
    /// The field equals the operand, ASCII case aside.
    IExact,
    /// The field's JSON value meets a condition.
    Json,
}

/// A test of values that gives the same answer for the same value.
pub trait Evaluator<T>: Send + Sync {
    /// Whether `value` passes.
    spec fn holds(&self, value: T) -> bool;

    /// The operand of the test.
    spec fn carried(&self) -> ShownOperand;

    /// Tells whether `value` passes.
    fn evaluate(&self, value: &T) -> (r: bool)
        ensures
            r == self.holds(*value),
    ;

    /// Shows the operand of the test.
    fn operand(&self) -> (r: Operand<'_>)
        ensures
            r.shown() == self.carried(),
    ;
}

/// A predicate on one field: the field's name, what is asked of it, and the
/// test with its operand.
#[verifier::reject_recursive_types(T)]
pub struct FieldPredicate<T> {
    /// Name of the field.
    pub field_name: &'static str,
    /// What is asked of the field.
    pub op: LookupOp,
    eval: Arc<Box<dyn Evaluator<T>>>,
}

impl<T> FieldPredicate<T> {
    /// Whether `value` passes.
    pub closed spec fn holds(&self, value: T) -> bool {
        self.eval.holds(value)
    }

    /// The operand.
    pub closed spec fn carried(&self) -> ShownOperand {
        self.eval.carried()
    }

    /// The name of the field.
    pub closed spec fn name(&self) -> Seq<char> {
        self.field_name@
    }

    /// What is asked of the field.
    pub closed spec fn operator(&self) -> LookupOp {
        self.op
    }

    /// Makes a predicate of a test.
    pub(crate) fn new(
        field_name: &'static str,
        op: LookupOp,
        eval: Arc<Box<dyn Evaluator<T>>>,
    ) -> (r: Self)
        ensures
            r.name() == field_name@,
            r.operator() == op,
            r.carried() == eval.carried(),
            forall|value: T| #[trigger] r.holds(value) == eval.holds(value),
    {
        FieldPredicate { field_name, op, eval }
    }

    /// Tells whether `value` passes.
    pub fn evaluate(&self, value: &T) -> (r: bool)
        ensures
            r == self.holds(*value),
    {
        self.eval.evaluate(value)
    }

    /// Shows the operand, as it was given.
    pub fn operand(&self) -> (r: Operand<'_>)
        ensures
            r.shown() == self.carried(),
    {
        self.eval.operand()
    }

    /// Shows the condition of a predicate on a JSON field.
    pub fn json_body(&self) -> (r: Option<&JSahibONPredicateBody>)
        ensures
            match r {
                Some(body) => self.carried() == ShownOperand::Body(*body),
                None => !(self.carried() is Body),
            },
    {
        match self.operand() {
            Operand::Body(body) => Some(body),
            _ => None,
        }
    }
}

impl<T> Clone for FieldPredicate<T> {
    fn clone(&self) -> (r: Self)
        ensures
            r == *self,
    {
        FieldPredicate { field_name: self.field_name, op: self.op, eval: self.eval.clone() }
    }
}

} // verus!
