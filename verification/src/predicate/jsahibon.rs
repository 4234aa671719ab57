//! Predicates on JSON fields.

use vstd::prelude::*;
use vstd::string::*;
use crate::cacheable::Field;
use crate::jsahibon::{compare_jsahibon_numbers, JFiniteF64, JObject, JSahibON};
use crate::json::binary64::NumberOrder;
use crate::predicate::basic::BasicPredicate;
use crate::predicate::field_predicate::{Evaluator, FieldPredicate, LookupOp};
use crate::predicate::json_path::{object_at, resolve_path, JPath};
use crate::predicate::operand::{Operand, ShownOperand};
use std::marker::PhantomData;
use std::sync::Arc;

verus! {

/// Kind of a scalar operand.
#[non_exhaustive]
#[derive(Clone, Copy, Debug, PartialEq, Eq, Structural)]
pub enum JScalarKind {
    /// A signed integer.
    I64,
    /// An unsigned integer.
    U64,
    /// A finite binary64 number.
    F64,
    /// A string.
    String,
    /// A truth value.
    Bool,
}

/// Kind of a JSON value.
#[non_exhaustive]
#[derive(Clone, Copy, Debug, PartialEq, Eq, Structural)]
pub enum JTypeKind {
    /// Null.
    Null,
    /// A truth value.
    Bool,
    /// A number in any variant.
    Number,
    /// A string.
    String,
    /// An array.
    Array,
    /// An object.
    Object,
}

/// A scalar operand.
#[non_exhaustive]
#[derive(Debug)]
pub enum JScalarValue {
    /// A signed integer.
    I64(i64),
    /// An unsigned integer.
    U64(u64),
    /// A finite binary64 number.
    F64(JFiniteF64),
    /// A string.
    String(String),
    /// A truth value.
    Bool(bool),
}

/// How a scalar is compared.
#[non_exhaustive]
#[derive(Clone, Copy, Debug, PartialEq, Eq, Structural)]
pub enum JCompareOp {
    /// Equal.
    Eq,
    /// Not equal.
    Neq,
    /// Greater.
    Gt,
    /// At least.
    Gte,
    /// Less.
    Lt,
    /// At most.
    Lte,
}

/// Whether membership is asked for or its absence.
#[non_exhaustive]
#[derive(Clone, Copy, Debug, PartialEq, Eq, Structural)]
pub enum JInPolarity {
    /// One of the operands.
    In,
    /// None of the operands.
    NotIn,
}

/// What a JSON predicate asks of the value that its path leads to.
#[non_exhaustive]
#[derive(Debug)]
pub enum JSahibONPredicateBody {
    /// The path leads to a value.
    Exists {
        /// The path.
        path: JPath,
    },
    /// The path leads nowhere.
    Missing {
        /// The path.
        path: JPath,
    },
    /// The value is null.
    IsJsonNull {
        /// The path.
        path: JPath,
    },
    /// The value is there and is not null.
    IsNotJsonNull {
        /// The path.
        path: JPath,
    },
    /// The value is of the kind.
    Type {
        /// The path.
        path: JPath,
        /// The kind.
        kind: JTypeKind,
    },
    /// The value is an object with the key.
    HasKey {
        /// The path.
        path: JPath,
        /// The key.
        key: String,
    },
    /// The value is an object with one of the keys.
    HasAnyKey {
        /// The path.
        path: JPath,
        /// The keys.
        keys: Vec<String>,
    },
    /// The value is an object with all of the keys.
    HasAllKeys {
        /// The path.
        path: JPath,
        /// The keys.
        keys: Vec<String>,
    },
    /// The value is a scalar of the kind and compares with the operand.
    ScalarCompare {
        /// The path.
        path: JPath,
        /// The comparison.
        op: JCompareOp,
        /// The kind.
        scalar_kind: JScalarKind,
        /// The operand.
        operand: JScalarValue,
    },
    /// The value is a scalar of the kind and one of the operands, or none.
    ScalarIn {
        /// The path.
        path: JPath,
        /// The kind.
        scalar_kind: JScalarKind,
        /// The operands.
        operands: Vec<JScalarValue>,
        /// Which of the two.
        polarity: JInPolarity,
    },
    /// The value is a scalar of the kind between the operands.
    ScalarBetween {
        /// The path.
        path: JPath,
        /// The kind.
        scalar_kind: JScalarKind,
        /// The lower operand.
        low: JScalarValue,
        /// The upper operand.
        high: JScalarValue,
    },
    /// The value equals the operand.
    JsonEq {
        /// The path.
        path: JPath,
        /// The operand.
        value: JSahibON,
    },
    /// The value is there and differs from the operand.
    JsonNeq {
        /// The path.
        path: JPath,
        /// The operand.
        value: JSahibON,
    },
    /// The value is an array with an element that equals the operand.
    ArrayContains {
        /// The path.
        path: JPath,
        /// The operand.
        element: JSahibON,
    },
    /// The value is an array whose length compares with the operand.
    ArrayLen {
        /// The path.
        path: JPath,
        /// The comparison.
        op: JCompareOp,
        /// The operand.
        len: u64,
    },
}

/// The JSON value of a scalar.
pub open spec fn scalar_json(scalar: JScalarValue) -> JSahibON {
    match scalar {
        JScalarValue::I64(n) => JSahibON::I64(n),
        JScalarValue::U64(n) => JSahibON::U64(n),
        JScalarValue::F64(f) => JSahibON::F64(f),
        JScalarValue::String(s) => JSahibON::String(s),
        JScalarValue::Bool(b) => JSahibON::Bool(b),
    }
}

/// Whether two scalars are equal: as JSON values are.
pub open spec fn scalar_eq(a: JScalarValue, b: JScalarValue) -> bool {
    crate::jsahibon::json_eq(scalar_json(a), scalar_json(b))
}

/// How two scalars compare; `None` where one is no number.
pub open spec fn scalar_order(a: JScalarValue, b: JScalarValue) -> Option<NumberOrder> {
    match (
        crate::jsahibon::numeric(scalar_json(a)),
        crate::jsahibon::numeric(scalar_json(b)),
    ) {
        (Some(x), Some(y)) => Some(crate::json::binary64::order_of(x, y)),
        _ => None,
    }
}

/// Whether `order` is what `op` asks for, given whether the scalars are equal.
pub open spec fn scalar_meets(op: JCompareOp, a: JScalarValue, b: JScalarValue) -> bool {
    let order = scalar_order(a, b);
    match op {
        JCompareOp::Eq => scalar_eq(a, b),
        JCompareOp::Neq => !scalar_eq(a, b),
        JCompareOp::Gt => order == Some(NumberOrder::Greater),
        JCompareOp::Gte => order == Some(NumberOrder::Greater) || order == Some(NumberOrder::Equal),
        JCompareOp::Lt => order == Some(NumberOrder::Less),
        JCompareOp::Lte => order == Some(NumberOrder::Less) || order == Some(NumberOrder::Equal),
    }
}

/// Whether two counts compare as `op` asks.
pub open spec fn count_meets(op: JCompareOp, a: int, b: int) -> bool {
    match op {
        JCompareOp::Eq => a == b,
        JCompareOp::Neq => a != b,
        JCompareOp::Gt => a > b,
        JCompareOp::Gte => a >= b,
        JCompareOp::Lt => a < b,
        JCompareOp::Lte => a <= b,
    }
}

/// Whether the value is of the kind.
pub open spec fn type_matches(value: JSahibON, kind: JTypeKind) -> bool {
    match kind {
        JTypeKind::Null => value is Null,
        JTypeKind::Bool => value is Bool,
        JTypeKind::Number => value is I64 || value is U64 || value is F64,
        JTypeKind::String => value is String,
        JTypeKind::Array => value is Array,
        JTypeKind::Object => value is Object,
    }
}

/// `scalar` is what the value is as a scalar of the kind. Each numeric kind
/// takes every number.
pub open spec fn is_scalar(value: JSahibON, kind: JScalarKind) -> bool {
    match kind {
        JScalarKind::String => value is String,
        JScalarKind::Bool => value is Bool,
        _ => value is I64 || value is U64 || value is F64,
    }
}

/// The scalar of a value that is one.
pub open spec fn scalar_of(value: JSahibON) -> JScalarValue {
    match value {
        JSahibON::I64(n) => JScalarValue::I64(n),
        JSahibON::U64(n) => JScalarValue::U64(n),
        JSahibON::F64(f) => JScalarValue::F64(f),
        JSahibON::String(s) => JScalarValue::String(s),
        JSahibON::Bool(b) => JScalarValue::Bool(b),
        _ => arbitrary(),
    }
}

/// The scalar of the kind that a path leads to.
pub open spec fn scalar_spec(
    root: Option<JSahibON>,
    path: Seq<Seq<char>>,
    kind: JScalarKind,
) -> Option<JScalarValue> {
    match crate::predicate::json_path::resolved(root, path) {
        Some(value) => if is_scalar(value, kind) {
            Some(scalar_of(value))
        } else {
            None
        },
        None => None,
    }
}

/// Whether an object has a key.
pub open spec fn object_has(object: JObject, key: Seq<char>) -> bool {
    crate::jsahibon::has_key(object@, key)
}

/// Whether an object has one of the keys.
pub open spec fn has_one_of(object: JObject, keys: Seq<String>) -> bool {
    exists|i: int| 0 <= i < keys.len() && object_has(object, (#[trigger] keys[i])@)
}

/// Whether an object has all of the keys.
pub open spec fn has_all_of(object: JObject, keys: Seq<String>) -> bool {
    forall|i: int| 0 <= i < keys.len() ==> object_has(object, (#[trigger] keys[i])@)
}

/// Whether one of the operands equals the scalar.
pub open spec fn is_listed(left: JScalarValue, operands: Seq<JScalarValue>) -> bool {
    exists|i: int| 0 <= i < operands.len() && scalar_eq(left, #[trigger] operands[i])
}

/// Whether the value that the body's path leads to is what the body asks for.
pub open spec fn body_holds(root: Option<JSahibON>, body: JSahibONPredicateBody) -> bool {
    match body {
        JSahibONPredicateBody::Exists { path } => crate::predicate::json_path::resolved(
            root,
            path@,
        ) is Some,
        JSahibONPredicateBody::Missing { path } => crate::predicate::json_path::resolved(
            root,
            path@,
        ) is None,
        JSahibONPredicateBody::IsJsonNull { path } => crate::predicate::json_path::resolved(
            root,
            path@,
        ) matches Some(value) && value is Null,
        JSahibONPredicateBody::IsNotJsonNull { path } => crate::predicate::json_path::resolved(
            root,
            path@,
        ) matches Some(value) && !(value is Null),
        JSahibONPredicateBody::Type { path, kind } => crate::predicate::json_path::resolved(
            root,
            path@,
        ) matches Some(value) && type_matches(value, kind),
        JSahibONPredicateBody::HasKey { path, key } => crate::predicate::json_path::object_spec(
            root,
            path@,
        ) matches Some(object) && object_has(object, key@),
        JSahibONPredicateBody::HasAnyKey { path, keys } => crate::predicate::json_path::object_spec(
            root,
            path@,
        ) matches Some(object) && has_one_of(object, keys@),
        JSahibONPredicateBody::HasAllKeys {
            path,
            keys,
        } => crate::predicate::json_path::object_spec(root, path@) matches Some(object)
            && has_all_of(object, keys@),
        JSahibONPredicateBody::ScalarCompare { path, op, scalar_kind, operand } => scalar_spec(
            root,
            path@,
            scalar_kind,
        ) matches Some(left) && scalar_meets(op, left, operand),
        JSahibONPredicateBody::ScalarIn { path, scalar_kind, operands, polarity } => scalar_spec(
            root,
            path@,
            scalar_kind,
        ) matches Some(left) && (is_listed(left, operands@) == (polarity == JInPolarity::In)),
        JSahibONPredicateBody::ScalarBetween { path, scalar_kind, low, high } => scalar_spec(
            root,
            path@,
            scalar_kind,
        ) matches Some(left) && scalar_meets(JCompareOp::Gte, left, low) && scalar_meets(
            JCompareOp::Lte,
            left,
            high,
        ),
        JSahibONPredicateBody::JsonEq { path, value } => crate::predicate::json_path::resolved(
            root,
            path@,
        ) matches Some(left) && crate::jsahibon::json_eq(left, value),
        JSahibONPredicateBody::JsonNeq { path, value } => crate::predicate::json_path::resolved(
            root,
            path@,
        ) matches Some(left) && !crate::jsahibon::json_eq(left, value),
        JSahibONPredicateBody::ArrayContains {
            path,
            element,
        } => crate::predicate::json_path::resolved(root, path@) matches Some(
            JSahibON::Array(values),
        ) && exists|i: int|
            0 <= i < values@.len() && crate::jsahibon::json_eq(#[trigger] values@[i], element),
        JSahibONPredicateBody::ArrayLen { path, op, len } => crate::predicate::json_path::resolved(
            root,
            path@,
        ) matches Some(JSahibON::Array(values)) && count_meets(
            op,
            values@.len() as int,
            len as int,
        ),
    }
}

/// Tells whether the value is of the kind.
fn matches_type(value: &JSahibON, kind: JTypeKind) -> (r: bool)
    ensures
        r == type_matches(*value, kind),
{
    match kind {
        JTypeKind::Null => matches!(value, JSahibON::Null),
        JTypeKind::Bool => matches!(value, JSahibON::Bool(_)),
        JTypeKind::Number => matches!(
            value,
            JSahibON::I64(_) | JSahibON::U64(_) | JSahibON::F64(_)
        ),
        JTypeKind::String => matches!(value, JSahibON::String(_)),
        JTypeKind::Array => matches!(value, JSahibON::Array(_)),
        JTypeKind::Object => matches!(value, JSahibON::Object(_)),
    }
}

/// Copies a scalar out of a value.
fn scalar_at(root: Option<&JSahibON>, path: &JPath, kind: JScalarKind) -> (r: Option<JScalarValue>)
    ensures
        r == scalar_spec(crate::predicate::json_path::deref(root), path@, kind),
{
    let value = match resolve_path(root, path) {
        Some(value) => value,
        None => {
            return None;
        },
    };
    match (kind, value) {
        (JScalarKind::String, JSahibON::String(s)) => Some(JScalarValue::String(s.clone())),
        (JScalarKind::String, _) => None,
        (JScalarKind::Bool, JSahibON::Bool(b)) => Some(JScalarValue::Bool(*b)),
        (JScalarKind::Bool, _) => None,
        (_, JSahibON::I64(n)) => Some(JScalarValue::I64(*n)),
        (_, JSahibON::U64(n)) => Some(JScalarValue::U64(*n)),
        (_, JSahibON::F64(f)) => Some(JScalarValue::F64(*f)),
        _ => None,
    }
}

/// Makes the JSON value of a scalar.
fn scalar_to_jsahibon(value: &JScalarValue) -> (r: JSahibON)
    ensures
        r == scalar_json(*value),
{
    match value {
        JScalarValue::I64(n) => JSahibON::I64(*n),
        JScalarValue::U64(n) => JSahibON::U64(*n),
        JScalarValue::F64(f) => JSahibON::F64(*f),
        JScalarValue::String(s) => JSahibON::String(s.clone()),
        JScalarValue::Bool(b) => JSahibON::Bool(*b),
    }
}

impl PartialEq for JScalarValue {
    fn eq(&self, other: &Self) -> (r: bool) {
        scalar_to_jsahibon(self).same(&scalar_to_jsahibon(other))
    }
}

impl vstd::std_specs::cmp::PartialEqSpecImpl for JScalarValue {
    open spec fn obeys_eq_spec() -> bool {
        true
    }

    open spec fn eq_spec(&self, other: &Self) -> bool {
        scalar_eq(*self, *other)
    }
}

/// Tells whether two scalars are equal.
fn same_scalar(left: &JScalarValue, right: &JScalarValue) -> (r: bool)
    ensures
        r == scalar_eq(*left, *right),
{
    scalar_to_jsahibon(left).same(&scalar_to_jsahibon(right))
}

/// Compares two scalars.
fn compare_scalar_order(left: &JScalarValue, right: &JScalarValue) -> (r: Option<NumberOrder>)
    ensures
        r == scalar_order(*left, *right),
{
    compare_jsahibon_numbers(&scalar_to_jsahibon(left), &scalar_to_jsahibon(right))
}

/// Tells whether two scalars compare as `op` asks.
fn compare_scalar(left: &JScalarValue, op: JCompareOp, right: &JScalarValue) -> (r: bool)
    ensures
        r == scalar_meets(op, *left, *right),
{
    match op {
        JCompareOp::Eq => same_scalar(left, right),
        JCompareOp::Neq => !same_scalar(left, right),
        JCompareOp::Gt => match compare_scalar_order(left, right) {
            Some(order) => order == NumberOrder::Greater,
            None => false,
        },
        JCompareOp::Gte => match compare_scalar_order(left, right) {
            Some(order) => order != NumberOrder::Less,
            None => false,
        },
        JCompareOp::Lt => match compare_scalar_order(left, right) {
            Some(order) => order == NumberOrder::Less,
            None => false,
        },
        JCompareOp::Lte => match compare_scalar_order(left, right) {
            Some(order) => order != NumberOrder::Greater,
            None => false,
        },
    }
}

/// Tells whether two counts compare as `op` asks.
fn compare_u64(left: u64, op: JCompareOp, right: u64) -> (r: bool)
    ensures
        r == count_meets(op, left as int, right as int),
{
    match op {
        JCompareOp::Eq => left == right,
        JCompareOp::Neq => left != right,
        JCompareOp::Gt => left > right,
        JCompareOp::Gte => left >= right,
        JCompareOp::Lt => left < right,
        JCompareOp::Lte => left <= right,
    }
}

/// Tells whether an object has one of the keys.
fn has_any(object: &JObject, keys: &Vec<String>) -> (r: bool)
    ensures
        r == has_one_of(*object, keys@),
{
    let mut i: usize = 0;
    while i < keys.len()
        invariant
            i <= keys@.len(),
            forall|j: int| 0 <= j < i ==> !object_has(*object, (#[trigger] keys@[j])@),
        decreases keys@.len() - i,
    {
        if object.get(keys[i].as_str()).is_some() {
            return true;
        }
        i += 1;
    }
    false
}

/// Tells whether an object has all of the keys.
fn has_all(object: &JObject, keys: &Vec<String>) -> (r: bool)
    ensures
        r == has_all_of(*object, keys@),
{
    let mut i: usize = 0;
    while i < keys.len()
        invariant
            i <= keys@.len(),
            forall|j: int| 0 <= j < i ==> object_has(*object, (#[trigger] keys@[j])@),
        decreases keys@.len() - i,
    {
        if object.get(keys[i].as_str()).is_none() {
            return false;
        }
        i += 1;
    }
    true
}

/// Tells whether one of the operands equals the scalar.
fn any_scalar(left: &JScalarValue, operands: &Vec<JScalarValue>) -> (r: bool)
    ensures
        r == is_listed(*left, operands@),
{
    let mut i: usize = 0;
    while i < operands.len()
        invariant
            i <= operands@.len(),
            forall|j: int| 0 <= j < i ==> !scalar_eq(*left, #[trigger] operands@[j]),
        decreases operands@.len() - i,
    {
        if same_scalar(left, &operands[i]) {
            return true;
        }
        i += 1;
    }
    false
}

/// Tells whether one of the values equals the element.
fn any_value(values: &Vec<JSahibON>, element: &JSahibON) -> (r: bool)
    ensures
        r == exists|i: int|
            0 <= i < values@.len() && crate::jsahibon::json_eq(#[trigger] values@[i], *element),
{
    let mut i: usize = 0;
    while i < values.len()
        invariant
            i <= values@.len(),
            forall|j: int|
                0 <= j < i ==> !crate::jsahibon::json_eq(#[trigger] values@[j], *element),
        decreases values@.len() - i,
    {
        if values[i].same(element) {
            return true;
        }
        i += 1;
    }
    false
}

/// Tells whether the value that the body's path leads to is what the body asks
/// for. An absent root leads nowhere.
pub fn evaluate_jsahibon_predicate(root: Option<&JSahibON>, body: &JSahibONPredicateBody) -> (r:
    bool)
    ensures
        r == body_holds(crate::predicate::json_path::deref(root), *body),
{
    match body {
        JSahibONPredicateBody::Exists { path } => resolve_path(root, path).is_some(),
        JSahibONPredicateBody::Missing { path } => resolve_path(root, path).is_none(),
        JSahibONPredicateBody::IsJsonNull { path } => match resolve_path(root, path) {
            Some(value) => matches!(value, JSahibON::Null),
            None => false,
        },
        JSahibONPredicateBody::IsNotJsonNull { path } => match resolve_path(root, path) {
            Some(value) => !matches!(value, JSahibON::Null),
            None => false,
        },
        JSahibONPredicateBody::Type { path, kind } => match resolve_path(root, path) {
            Some(value) => matches_type(value, *kind),
            None => false,
        },
        JSahibONPredicateBody::HasKey { path, key } => match object_at(root, path) {
            Some(object) => object.get(key.as_str()).is_some(),
            None => false,
        },
        JSahibONPredicateBody::HasAnyKey { path, keys } => match object_at(root, path) {
            Some(object) => has_any(object, keys),
            None => false,
        },
        JSahibONPredicateBody::HasAllKeys { path, keys } => match object_at(root, path) {
            Some(object) => has_all(object, keys),
            None => false,
        },
        JSahibONPredicateBody::ScalarCompare { path, op, scalar_kind, operand } => match scalar_at(
            root,
            path,
            *scalar_kind,
        ) {
            Some(left) => compare_scalar(&left, *op, operand),
            None => false,
        },
        JSahibONPredicateBody::ScalarIn { path, scalar_kind, operands, polarity } => match scalar_at(
            root,
            path,
            *scalar_kind,
        ) {
            Some(left) => {
                let contains = any_scalar(&left, operands);
                match polarity {
                    JInPolarity::In => contains,
                    JInPolarity::NotIn => !contains,
                }
            },
            None => false,
        },
        JSahibONPredicateBody::ScalarBetween { path, scalar_kind, low, high } => match scalar_at(
            root,
            path,
            *scalar_kind,
        ) {
            Some(left) => compare_scalar(&left, JCompareOp::Gte, low) && compare_scalar(
                &left,
                JCompareOp::Lte,
                high,
            ),
            None => false,
        },
        JSahibONPredicateBody::JsonEq { path, value } => match resolve_path(root, path) {
            Some(left) => left.same(value),
            None => false,
        },
        JSahibONPredicateBody::JsonNeq { path, value } => match resolve_path(root, path) {
            Some(left) => !left.same(value),
            None => false,
        },
        JSahibONPredicateBody::ArrayContains { path, element } => match resolve_path(root, path) {
            Some(JSahibON::Array(values)) => any_value(values, element),
            _ => false,
        },
        JSahibONPredicateBody::ArrayLen { path, op, len } => match resolve_path(root, path) {
            Some(JSahibON::Array(values)) => compare_u64(values.len() as u64, *op, *len),
            _ => false,
        },
    }
}

/// A type of scalar operands.
pub trait JScalar: Send + Sync + Sized + 'static {
    /// The kind of the operands.
    spec fn spec_kind() -> JScalarKind;

    /// The operand.
    spec fn spec_scalar(self) -> JScalarValue;

    /// Returns the kind of the operands.
    fn kind() -> (r: JScalarKind)
        ensures
            r == Self::spec_kind(),
    ;

    /// Makes an operand.
    fn into_scalar_value(self) -> (r: JScalarValue)
        ensures
            r == self.spec_scalar(),
    ;
}

/// A type of scalar operands that are ordered.
pub trait JOrderedScalar: JScalar {

}

impl JScalar for i64 {
    open spec fn spec_kind() -> JScalarKind {
        JScalarKind::I64
    }

    open spec fn spec_scalar(self) -> JScalarValue {
        JScalarValue::I64(self)
    }

    fn kind() -> (r: JScalarKind) {
        JScalarKind::I64
    }

    fn into_scalar_value(self) -> (r: JScalarValue) {
        JScalarValue::I64(self)
    }
}

impl JScalar for u64 {
    open spec fn spec_kind() -> JScalarKind {
        JScalarKind::U64
    }

    open spec fn spec_scalar(self) -> JScalarValue {
        JScalarValue::U64(self)
    }

    fn kind() -> (r: JScalarKind) {
        JScalarKind::U64
    }

    fn into_scalar_value(self) -> (r: JScalarValue) {
        JScalarValue::U64(self)
    }
}

impl JScalar for JFiniteF64 {
    open spec fn spec_kind() -> JScalarKind {
        JScalarKind::F64
    }

    open spec fn spec_scalar(self) -> JScalarValue {
        JScalarValue::F64(self)
    }

    fn kind() -> (r: JScalarKind) {
        JScalarKind::F64
    }

    fn into_scalar_value(self) -> (r: JScalarValue) {
        JScalarValue::F64(self)
    }
}

impl JScalar for String {
    open spec fn spec_kind() -> JScalarKind {
        JScalarKind::String
    }

    open spec fn spec_scalar(self) -> JScalarValue {
        JScalarValue::String(self)
    }

    fn kind() -> (r: JScalarKind) {
        JScalarKind::String
    }

    fn into_scalar_value(self) -> (r: JScalarValue) {
        JScalarValue::String(self)
    }
}

impl JScalar for bool {
    open spec fn spec_kind() -> JScalarKind {
        JScalarKind::Bool
    }

    open spec fn spec_scalar(self) -> JScalarValue {
        JScalarValue::Bool(self)
    }

    fn kind() -> (r: JScalarKind) {
        JScalarKind::Bool
    }

    fn into_scalar_value(self) -> (r: JScalarValue) {
        JScalarValue::Bool(self)
    }
}

impl JOrderedScalar for i64 {

}

impl JOrderedScalar for u64 {

}

impl JOrderedScalar for JFiniteF64 {

}

/// The JSON field that a predicate starts from.
#[verifier::reject_recursive_types(T)]
enum JRoot<T> {
    Required(Field<T, JSahibON>),
    Optional(Field<T, Option<JSahibON>>),
}

impl<T: Send + Sync + 'static> JRoot<T> {
    spec fn of(&self, value: T) -> Option<JSahibON> {
        match self {
            JRoot::Required(field) => Some(field.of(value)),
            JRoot::Optional(field) => field.of(value),
        }
    }

    spec fn name(&self) -> Seq<char> {
        match self {
            JRoot::Required(field) => field.spec_name(),
            JRoot::Optional(field) => field.spec_name(),
        }
    }

    fn field_name(&self) -> (r: &'static str)
        ensures
            r@ == self.name(),
    {
        match self {
            JRoot::Required(field) => field.name(),
            JRoot::Optional(field) => field.name(),
        }
    }

    fn resolve<'a>(&self, value: &'a T) -> (r: Option<&'a JSahibON>)
        ensures
            crate::predicate::json_path::deref(r) == self.of(*value),
    {
        match self {
            JRoot::Required(field) => Some(field.get(value)),
            JRoot::Optional(field) => match field.get(value) {
                Some(json) => Some(json),
                None => None,
            },
        }
    }

    fn copy(&self) -> (r: Self)
        ensures
            r == *self,
    {
        match self {
            JRoot::Required(field) => JRoot::Required(field.clone()),
            JRoot::Optional(field) => JRoot::Optional(field.clone()),
        }
    }
}

/// A JSON field and what is asked of it.
#[verifier::reject_recursive_types(T)]
struct JsonTest<T> {
    root: JRoot<T>,
    body: JSahibONPredicateBody,
}

impl<T: Send + Sync + 'static> Evaluator<T> for JsonTest<T> {
    closed spec fn holds(&self, value: T) -> bool {
        body_holds(self.root.of(value), self.body)
    }

    closed spec fn carried(&self) -> ShownOperand {
        ShownOperand::Body(self.body)
    }

    fn evaluate(&self, value: &T) -> (r: bool) {
        evaluate_jsahibon_predicate(self.root.resolve(value), &self.body)
    }

    fn operand(&self) -> (r: Operand<'_>) {
        Operand::Body(&self.body)
    }
}

/// A place in a JSON field to ask about.
#[verifier::reject_recursive_types(T)]
pub struct JSahibONPathRef<T> {
    root: JRoot<T>,
    path: JPath,
}

/// A JSON field to ask about.
#[verifier::reject_recursive_types(T)]
pub struct JSahibONFieldRef<T> {
    inner: JSahibONPathRef<T>,
}

/// A JSON field that may be absent, to ask about.
#[verifier::reject_recursive_types(T)]
pub struct JSahibONOptionFieldRef<T> {
    inner: JSahibONPathRef<T>,
}

/// A scalar in a JSON field to ask about.
#[verifier::reject_recursive_types(T)]
pub struct JSahibONValueRef<T, V> {
    inner: JSahibONPathRef<T>,
    marker: PhantomData<V>,
}

/// `p` asks about the JSON field named `name`.
pub open spec fn asks_json<T>(p: BasicPredicate<T>, name: Seq<char>) -> bool {
    p matches BasicPredicate::Field(predicate) && predicate.name() == name && predicate.operator()
        == LookupOp::Json
}

/// The condition that `p` carries.
pub open spec fn carried_body<T>(p: BasicPredicate<T>) -> Option<JSahibONPredicateBody> {
    match p {
        BasicPredicate::Field(predicate) => match predicate.carried() {
            ShownOperand::Body(body) => Some(body),
            _ => None,
        },
        _ => None,
    }
}

impl<T: Send + Sync + 'static> Field<T, JSahibON> {
    /// Asks about a JSON field.
    pub fn jsahibon(&self) -> (r: JSahibONFieldRef<T>)
        ensures
            r.spec_name() == self.spec_name(),
            r.steps() == Seq::<Seq<char>>::empty(),
            forall|value: T| #[trigger] r.root_of(value) == Some(self.of(value)),
    {
        JSahibONFieldRef {
            inner: JSahibONPathRef { root: JRoot::Required(self.clone()), path: JPath::root() },
        }
    }
}

impl<T: Send + Sync + 'static> Field<T, Option<JSahibON>> {
    /// Asks about a JSON field that may be absent.
    pub fn jsahibon_option(&self) -> (r: JSahibONOptionFieldRef<T>)
        ensures
            r.spec_name() == self.spec_name(),
            r.steps() == Seq::<Seq<char>>::empty(),
            forall|value: T| #[trigger] r.root_of(value) == self.of(value),
    {
        JSahibONOptionFieldRef {
            inner: JSahibONPathRef { root: JRoot::Optional(self.clone()), path: JPath::root() },
        }
    }
}

impl<T: Send + Sync + 'static> JSahibONPathRef<T> {
    /// The JSON value of the field, where it is present.
    pub closed spec fn root_of(&self, value: T) -> Option<JSahibON> {
        self.root.of(value)
    }

    /// The keys to follow.
    pub closed spec fn steps(&self) -> Seq<Seq<char>> {
        self.path@
    }

    /// The name of the field.
    pub closed spec fn spec_name(&self) -> Seq<char> {
        self.root.name()
    }

    /// The value that the keys lead to.
    pub open spec fn found(&self, value: T) -> Option<JSahibON> {
        crate::predicate::json_path::resolved(self.root_of(value), self.steps())
    }

    /// The object that the keys lead to.
    pub open spec fn found_object(&self, value: T) -> Option<JObject> {
        crate::predicate::json_path::object_spec(self.root_of(value), self.steps())
    }

    /// The same field, at the given keys.
    pub open spec fn moved(&self, from: Self, steps: Seq<Seq<char>>) -> bool {
        &&& self.spec_name() == from.spec_name()
        &&& self.steps() == steps
        &&& forall|value: T| #[trigger] self.root_of(value) == from.root_of(value)
    }

    /// Makes the same place again.
    pub fn copy(&self) -> (r: Self)
        ensures
            r.moved(*self, self.steps()),
    {
        JSahibONPathRef { root: self.root.copy(), path: self.path.copy() }
    }

    /// Goes on with a key, taken as it is.
    pub fn key(self, key: String) -> (r: Self)
        ensures
            r.moved(self, self.steps().push(key@)),
    {
        let path = self.path.push(key);
        JSahibONPathRef { root: self.root, path }
    }

    /// Goes on with keys, taken as they are.
    pub fn path_segments(self, segments: Vec<String>) -> (r: Self)
        ensures
            r.moved(self, self.steps() + crate::predicate::json_path::texts(segments@)),
    {
        let path = self.path.extend(segments);
        JSahibONPathRef { root: self.root, path }
    }

    /// Goes to other keys.
    fn at(&self, path: JPath) -> (r: Self)
        ensures
            r.moved(*self, path@),
    {
        JSahibONPathRef { root: self.root.copy(), path }
    }

    /// Makes the predicate of a body.
    fn predicate(&self, body: JSahibONPredicateBody) -> (r: BasicPredicate<T>)
        ensures
            asks_json(r, self.spec_name()),
            carried_body(r) == Some(body),
            forall|value: T| #[trigger] r.holds(value) == body_holds(self.root_of(value), body),
    {
        let test: JsonTest<T> = JsonTest { root: self.root.copy(), body };
        let ghost t = test;
        let boxed: Box<dyn Evaluator<T>> = Box::new(test);
        assert forall|value: T| #[trigger] boxed.holds(value) == t.holds(value) by {}
        assert(boxed.carried() == t.carried());
        let shared = Arc::new(boxed);
        let predicate = FieldPredicate::new(self.root.field_name(), LookupOp::Json, shared);
        assert forall|value: T| #[trigger] predicate.holds(value) == body_holds(
            self.root_of(value),
            body,
        ) by {
            assert(predicate.holds(value) == shared.holds(value));
        }
        BasicPredicate::Field(predicate)
    }

    /// Asks about a scalar.
    pub fn value<V: JScalar>(&self) -> (r: JSahibONValueRef<T, V>)
        ensures
            r.place().moved(*self, self.steps()),
    {
        JSahibONValueRef { inner: self.copy(), marker: PhantomData }
    }

    /// Passes where the path leads to a value.
    pub fn is_present(&self) -> (r: BasicPredicate<T>)
        ensures
            asks_json(r, self.spec_name()),
            carried_body(r) matches Some(JSahibONPredicateBody::Exists { path: at })
                && at@ == self.steps(),
            forall|value: T| #[trigger]
                r.holds(value) == self.found(value) is Some,
    {
        let path = self.path.copy();
        self.predicate(JSahibONPredicateBody::Exists { path })
    }

    /// Passes where the path leads nowhere.
    pub fn missing(&self) -> (r: BasicPredicate<T>)
        ensures
            asks_json(r, self.spec_name()),
            carried_body(r) matches Some(JSahibONPredicateBody::Missing { path: at })
                && at@ == self.steps(),
            forall|value: T| #[trigger]
                r.holds(value) == self.found(value) is None,
    {
        let path = self.path.copy();
        self.predicate(JSahibONPredicateBody::Missing { path })
    }

    /// Passes where the value is null.
    pub fn is_json_null(&self) -> (r: BasicPredicate<T>)
        ensures
            asks_json(r, self.spec_name()),
            carried_body(r) matches Some(JSahibONPredicateBody::IsJsonNull { path: at })
                && at@ == self.steps(),
            forall|value: T| #[trigger]
                r.holds(value) == (self.found(value) matches Some(found) && found is Null),
    {
        let path = self.path.copy();
        self.predicate(JSahibONPredicateBody::IsJsonNull { path })
    }

    /// Passes where the value is there and is not null.
    pub fn is_not_json_null(&self) -> (r: BasicPredicate<T>)
        ensures
            asks_json(r, self.spec_name()),
            carried_body(r) matches Some(JSahibONPredicateBody::IsNotJsonNull { path: at })
                && at@ == self.steps(),
            forall|value: T| #[trigger]
                r.holds(value) == (self.found(value) matches Some(found) && !(found is Null)),
    {
        let path = self.path.copy();
        self.predicate(JSahibONPredicateBody::IsNotJsonNull { path })
    }

    /// Passes where the value is of the kind.
    pub fn is_type(&self, kind: JTypeKind) -> (r: BasicPredicate<T>)
        ensures
            asks_json(r, self.spec_name()),
            carried_body(r) matches Some(JSahibONPredicateBody::Type { path: at, kind: asked })
                && at@ == self.steps()
                && asked == kind,
            forall|value: T| #[trigger]
                r.holds(value) == (self.found(value) matches Some(found)
                    && type_matches(found, kind)),
    {
        let path = self.path.copy();
        self.predicate(JSahibONPredicateBody::Type { path, kind })
    }

    /// Passes where the value is a truth value.
    pub fn is_bool(&self) -> (r: BasicPredicate<T>)
        ensures
            asks_json(r, self.spec_name()),
            carried_body(r) matches Some(JSahibONPredicateBody::Type { path: at, kind: asked })
                && at@ == self.steps()
                && asked == JTypeKind::Bool,
            forall|value: T| #[trigger]
                r.holds(value) == (self.found(value) matches Some(found)
                    && type_matches(found, JTypeKind::Bool)),
    {
        let path = self.path.copy();
        self.predicate(JSahibONPredicateBody::Type { path, kind: JTypeKind::Bool })
    }

    /// Passes where the value is a number.
    pub fn is_number(&self) -> (r: BasicPredicate<T>)
        ensures
            asks_json(r, self.spec_name()),
            carried_body(r) matches Some(JSahibONPredicateBody::Type { path: at, kind: asked })
                && at@ == self.steps()
                && asked == JTypeKind::Number,
            forall|value: T| #[trigger]
                r.holds(value) == (self.found(value) matches Some(found)
                    && type_matches(found, JTypeKind::Number)),
    {
        let path = self.path.copy();
        self.predicate(JSahibONPredicateBody::Type { path, kind: JTypeKind::Number })
    }

    /// Passes where the value is a string.
    pub fn is_string(&self) -> (r: BasicPredicate<T>)
        ensures
            asks_json(r, self.spec_name()),
            carried_body(r) matches Some(JSahibONPredicateBody::Type { path: at, kind: asked })
                && at@ == self.steps()
                && asked == JTypeKind::String,
            forall|value: T| #[trigger]
                r.holds(value) == (self.found(value) matches Some(found)
                    && type_matches(found, JTypeKind::String)),
    {
        let path = self.path.copy();
        self.predicate(JSahibONPredicateBody::Type { path, kind: JTypeKind::String })
    }

    /// Passes where the value is an array.
    pub fn is_array(&self) -> (r: BasicPredicate<T>)
        ensures
            asks_json(r, self.spec_name()),
            carried_body(r) matches Some(JSahibONPredicateBody::Type { path: at, kind: asked })
                && at@ == self.steps()
                && asked == JTypeKind::Array,
            forall|value: T| #[trigger]
                r.holds(value) == (self.found(value) matches Some(found)
                    && type_matches(found, JTypeKind::Array)),
    {
        let path = self.path.copy();
        self.predicate(JSahibONPredicateBody::Type { path, kind: JTypeKind::Array })
    }

    /// Passes where the value is an object.
    pub fn is_object(&self) -> (r: BasicPredicate<T>)
        ensures
            asks_json(r, self.spec_name()),
            carried_body(r) matches Some(JSahibONPredicateBody::Type { path: at, kind: asked })
                && at@ == self.steps()
                && asked == JTypeKind::Object,
            forall|value: T| #[trigger]
                r.holds(value) == (self.found(value) matches Some(found)
                    && type_matches(found, JTypeKind::Object)),
    {
        let path = self.path.copy();
        self.predicate(JSahibONPredicateBody::Type { path, kind: JTypeKind::Object })
    }

    /// Passes where the value is an object with the key.
    pub fn has_key(&self, key: String) -> (r: BasicPredicate<T>)
        ensures
            asks_json(r, self.spec_name()),
            carried_body(r) matches Some(JSahibONPredicateBody::HasKey { path: at, key: asked })
                && at@ == self.steps()
                && asked == key,
            forall|value: T| #[trigger]
                r.holds(value) == (self.found_object(value) matches Some(object)
                    && object_has(object, key@)),
    {
        let path = self.path.copy();
        self.predicate(JSahibONPredicateBody::HasKey { path, key })
    }

    /// Passes where the value is an object with one of the keys.
    pub fn has_any_key(&self, keys: Vec<String>) -> (r: BasicPredicate<T>)
        ensures
            asks_json(r, self.spec_name()),
            carried_body(r) matches Some(JSahibONPredicateBody::HasAnyKey { path: at, keys: asked })
                && at@ == self.steps()
                && asked == keys,
            forall|value: T| #[trigger]
                r.holds(value) == (self.found_object(value) matches Some(object)
                    && has_one_of(object, keys@)),
    {
        let path = self.path.copy();
        self.predicate(JSahibONPredicateBody::HasAnyKey { path, keys })
    }

    /// Passes where the value is an object with all of the keys.
    pub fn has_all_keys(&self, keys: Vec<String>) -> (r: BasicPredicate<T>)
        ensures
            asks_json(r, self.spec_name()),
            carried_body(r) matches Some(JSahibONPredicateBody::HasAllKeys { path: at, keys: asked })
                && at@ == self.steps()
                && asked == keys,
            forall|value: T| #[trigger]
                r.holds(value) == (self.found_object(value) matches Some(object)
                    && has_all_of(object, keys@)),
    {
        let path = self.path.copy();
        self.predicate(JSahibONPredicateBody::HasAllKeys { path, keys })
    }

    /// Passes where the value equals `operand`.
    pub fn eq_json(&self, operand: JSahibON) -> (r: BasicPredicate<T>)
        ensures
            asks_json(r, self.spec_name()),
            carried_body(r) matches Some(JSahibONPredicateBody::JsonEq { path: at, value: asked })
                && at@ == self.steps()
                && asked == operand,
            forall|value: T| #[trigger]
                r.holds(value) == (self.found(value) matches Some(found)
                    && crate::jsahibon::json_eq(found, operand)),
    {
        let path = self.path.copy();
        self.predicate(JSahibONPredicateBody::JsonEq { path, value: operand })
    }

    /// Passes where the value is there and differs from `operand`.
    pub fn neq_json(&self, operand: JSahibON) -> (r: BasicPredicate<T>)
        ensures
            asks_json(r, self.spec_name()),
            carried_body(r) matches Some(JSahibONPredicateBody::JsonNeq { path: at, value: asked })
                && at@ == self.steps()
                && asked == operand,
            forall|value: T| #[trigger]
                r.holds(value) == (self.found(value) matches Some(found)
                    && !crate::jsahibon::json_eq(found, operand)),
    {
        let path = self.path.copy();
        self.predicate(JSahibONPredicateBody::JsonNeq { path, value: operand })
    }

    /// Passes where the value is an array with an element that equals `element`.
    pub fn array_contains(&self, element: JSahibON) -> (r: BasicPredicate<T>)
        ensures
            asks_json(r, self.spec_name()),
            carried_body(r) matches Some(JSahibONPredicateBody::ArrayContains { path: at, element: asked })
                && at@ == self.steps()
                && asked == element,
            forall|value: T| #[trigger]
                r.holds(value) == (self.found(value) matches Some(JSahibON::Array(items))
                    && exists|i: int|
                    0 <= i < items@.len()
                        && crate::jsahibon::json_eq(#[trigger] items@[i], element)),
    {
        let path = self.path.copy();
        self.predicate(JSahibONPredicateBody::ArrayContains { path, element })
    }

    /// Passes where the value is an array of `len` elements.
    pub fn array_len_eq(&self, len: usize) -> (r: BasicPredicate<T>)
        ensures
            asks_json(r, self.spec_name()),
            carried_body(r) matches Some(JSahibONPredicateBody::ArrayLen { path: at, op, len: asked })
                && at@ == self.steps()
                && op == JCompareOp::Eq
                && asked == len,
            forall|value: T| #[trigger]
                r.holds(value) == (self.found(value) matches Some(JSahibON::Array(items))
                    && count_meets(
                    JCompareOp::Eq,
                    items@.len() as int,
                    len as int,
                )),
    {
        let path = self.path.copy();
        self.predicate(JSahibONPredicateBody::ArrayLen { path, op: JCompareOp::Eq, len: len as u64 })
    }

    /// Passes where the value is an array of more than `len` elements.
    pub fn array_len_gt(&self, len: usize) -> (r: BasicPredicate<T>)
        ensures
            asks_json(r, self.spec_name()),
            carried_body(r) matches Some(JSahibONPredicateBody::ArrayLen { path: at, op, len: asked })
                && at@ == self.steps()
                && op == JCompareOp::Gt
                && asked == len,
            forall|value: T| #[trigger]
                r.holds(value) == (self.found(value) matches Some(JSahibON::Array(items))
                    && count_meets(
                    JCompareOp::Gt,
                    items@.len() as int,
                    len as int,
                )),
    {
        let path = self.path.copy();
        self.predicate(JSahibONPredicateBody::ArrayLen { path, op: JCompareOp::Gt, len: len as u64 })
    }

    /// Passes where the value is an array of at least `len` elements.
    pub fn array_len_gte(&self, len: usize) -> (r: BasicPredicate<T>)
        ensures
            asks_json(r, self.spec_name()),
            carried_body(r) matches Some(JSahibONPredicateBody::ArrayLen { path: at, op, len: asked })
                && at@ == self.steps()
                && op == JCompareOp::Gte
                && asked == len,
            forall|value: T| #[trigger]
                r.holds(value) == (self.found(value) matches Some(JSahibON::Array(items))
                    && count_meets(
                    JCompareOp::Gte,
                    items@.len() as int,
                    len as int,
                )),
    {
        let path = self.path.copy();
        self.predicate(JSahibONPredicateBody::ArrayLen { path, op: JCompareOp::Gte, len: len as u64 })
    }

    /// Passes where the value is an array of less than `len` elements.
    pub fn array_len_lt(&self, len: usize) -> (r: BasicPredicate<T>)
        ensures
            asks_json(r, self.spec_name()),
            carried_body(r) matches Some(JSahibONPredicateBody::ArrayLen { path: at, op, len: asked })
                && at@ == self.steps()
                && op == JCompareOp::Lt
                && asked == len,
            forall|value: T| #[trigger]
                r.holds(value) == (self.found(value) matches Some(JSahibON::Array(items))
                    && count_meets(
                    JCompareOp::Lt,
                    items@.len() as int,
                    len as int,
                )),
    {
        let path = self.path.copy();
        self.predicate(JSahibONPredicateBody::ArrayLen { path, op: JCompareOp::Lt, len: len as u64 })
    }

    /// Passes where the value is an array of at most `len` elements.
    pub fn array_len_lte(&self, len: usize) -> (r: BasicPredicate<T>)
        ensures
            asks_json(r, self.spec_name()),
            carried_body(r) matches Some(JSahibONPredicateBody::ArrayLen { path: at, op, len: asked })
                && at@ == self.steps()
                && op == JCompareOp::Lte
                && asked == len,
            forall|value: T| #[trigger]
                r.holds(value) == (self.found(value) matches Some(JSahibON::Array(items))
                    && count_meets(
                    JCompareOp::Lte,
                    items@.len() as int,
                    len as int,
                )),
    {
        let path = self.path.copy();
        self.predicate(JSahibONPredicateBody::ArrayLen { path, op: JCompareOp::Lte, len: len as u64 })
    }
}

impl<T: Send + Sync + 'static> JSahibONFieldRef<T> {
    /// The JSON value of the field, where it is present.
    pub closed spec fn root_of(&self, value: T) -> Option<JSahibON> {
        self.inner.root_of(value)
    }

    /// The keys to follow.
    pub closed spec fn steps(&self) -> Seq<Seq<char>> {
        self.inner.steps()
    }

    /// The name of the field.
    pub closed spec fn spec_name(&self) -> Seq<char> {
        self.inner.spec_name()
    }

    /// The value that the keys lead to.
    pub open spec fn found(&self, value: T) -> Option<JSahibON> {
        crate::predicate::json_path::resolved(self.root_of(value), self.steps())
    }

    /// The object that the keys lead to.
    pub open spec fn found_object(&self, value: T) -> Option<JObject> {
        crate::predicate::json_path::object_spec(self.root_of(value), self.steps())
    }

    /// `place` is in the same field, at the given keys.
    pub open spec fn leads_to(&self, place: JSahibONPathRef<T>, steps: Seq<Seq<char>>) -> bool {
        &&& place.spec_name() == self.spec_name()
        &&& place.steps() == steps
        &&& forall|value: T| #[trigger] place.root_of(value) == self.root_of(value)
    }

    /// Goes to the field itself.
    pub fn root(&self) -> (r: JSahibONPathRef<T>)
        ensures
            self.leads_to(r, Seq::empty()),
    {
        self.inner.at(JPath::root())
    }

    /// Goes to a dotted path of plain segments.
    pub fn path(&self, dotted: &str) -> (r: JSahibONPathRef<T>)
        requires
            crate::predicate::json_path::plain_path(dotted@),
        ensures
            self.leads_to(r, crate::predicate::json_path::split_dots(dotted@)),
    {
        self.inner.at(JPath::parse_dotted(dotted))
    }

    /// Goes on with a key, taken as it is.
    pub fn key(&self, key: String) -> (r: JSahibONPathRef<T>)
        ensures
            self.leads_to(r, self.steps().push(key@)),
    {
        self.inner.at(self.inner.path.push(key))
    }

    /// Goes to keys, taken as they are.
    pub fn path_segments(&self, segments: Vec<String>) -> (r: JSahibONPathRef<T>)
        ensures
            self.leads_to(r, crate::predicate::json_path::texts(segments@)),
    {
        self.inner.at(JPath::from_segments(segments))
    }

    /// Asks about a scalar.
    pub fn value<V: JScalar>(&self) -> (r: JSahibONValueRef<T, V>)
        ensures
            self.leads_to(r.place(), self.steps()),
    {
        self.inner.value()
    }

    /// Passes where the path leads to a value.
    pub fn is_present(&self) -> (r: BasicPredicate<T>)
        ensures
            asks_json(r, self.spec_name()),
            carried_body(r) matches Some(JSahibONPredicateBody::Exists { path: at })
                && at@ == self.steps(),
            forall|value: T| #[trigger]
                r.holds(value) == self.found(value) is Some,
    {
        self.inner.is_present()
    }

    /// Passes where the path leads nowhere.
    pub fn missing(&self) -> (r: BasicPredicate<T>)
        ensures
            asks_json(r, self.spec_name()),
            carried_body(r) matches Some(JSahibONPredicateBody::Missing { path: at })
                && at@ == self.steps(),
            forall|value: T| #[trigger]
                r.holds(value) == self.found(value) is None,
    {
        self.inner.missing()
    }

    /// Passes where the value is null.
    pub fn is_json_null(&self) -> (r: BasicPredicate<T>)
        ensures
            asks_json(r, self.spec_name()),
            carried_body(r) matches Some(JSahibONPredicateBody::IsJsonNull { path: at })
                && at@ == self.steps(),
            forall|value: T| #[trigger]
                r.holds(value) == (self.found(value) matches Some(found) && found is Null),
    {
        self.inner.is_json_null()
    }

    /// Passes where the value is there and is not null.
    pub fn is_not_json_null(&self) -> (r: BasicPredicate<T>)
        ensures
            asks_json(r, self.spec_name()),
            carried_body(r) matches Some(JSahibONPredicateBody::IsNotJsonNull { path: at })
                && at@ == self.steps(),
            forall|value: T| #[trigger]
                r.holds(value) == (self.found(value) matches Some(found) && !(found is Null)),
    {
        self.inner.is_not_json_null()
    }

    /// Passes where the value is of the kind.
    pub fn is_type(&self, kind: JTypeKind) -> (r: BasicPredicate<T>)
        ensures
            asks_json(r, self.spec_name()),
            carried_body(r) matches Some(JSahibONPredicateBody::Type { path: at, kind: asked })
                && at@ == self.steps()
                && asked == kind,
            forall|value: T| #[trigger]
                r.holds(value) == (self.found(value) matches Some(found)
                    && type_matches(found, kind)),
    {
        self.inner.is_type(kind)
    }

    /// Passes where the value is a truth value.
    pub fn is_bool(&self) -> (r: BasicPredicate<T>)
        ensures
            asks_json(r, self.spec_name()),
            carried_body(r) matches Some(JSahibONPredicateBody::Type { path: at, kind: asked })
                && at@ == self.steps()
                && asked == JTypeKind::Bool,
            forall|value: T| #[trigger]
                r.holds(value) == (self.found(value) matches Some(found)
                    && type_matches(found, JTypeKind::Bool)),
    {
        self.inner.is_bool()
    }

    /// Passes where the value is a number.
    pub fn is_number(&self) -> (r: BasicPredicate<T>)
        ensures
            asks_json(r, self.spec_name()),
            carried_body(r) matches Some(JSahibONPredicateBody::Type { path: at, kind: asked })
                && at@ == self.steps()
                && asked == JTypeKind::Number,
            forall|value: T| #[trigger]
                r.holds(value) == (self.found(value) matches Some(found)
                    && type_matches(found, JTypeKind::Number)),
    {
        self.inner.is_number()
    }

    /// Passes where the value is a string.
    pub fn is_string(&self) -> (r: BasicPredicate<T>)
        ensures
            asks_json(r, self.spec_name()),
            carried_body(r) matches Some(JSahibONPredicateBody::Type { path: at, kind: asked })
                && at@ == self.steps()
                && asked == JTypeKind::String,
            forall|value: T| #[trigger]
                r.holds(value) == (self.found(value) matches Some(found)
                    && type_matches(found, JTypeKind::String)),
    {
        self.inner.is_string()
    }

    /// Passes where the value is an array.
    pub fn is_array(&self) -> (r: BasicPredicate<T>)
        ensures
            asks_json(r, self.spec_name()),
            carried_body(r) matches Some(JSahibONPredicateBody::Type { path: at, kind: asked })
                && at@ == self.steps()
                && asked == JTypeKind::Array,
            forall|value: T| #[trigger]
                r.holds(value) == (self.found(value) matches Some(found)
                    && type_matches(found, JTypeKind::Array)),
    {
        self.inner.is_array()
    }

    /// Passes where the value is an object.
    pub fn is_object(&self) -> (r: BasicPredicate<T>)
        ensures
            asks_json(r, self.spec_name()),
            carried_body(r) matches Some(JSahibONPredicateBody::Type { path: at, kind: asked })
                && at@ == self.steps()
                && asked == JTypeKind::Object,
            forall|value: T| #[trigger]
                r.holds(value) == (self.found(value) matches Some(found)
                    && type_matches(found, JTypeKind::Object)),
    {
        self.inner.is_object()
    }

    /// Passes where the value is an object with the key.
    pub fn has_key(&self, key: String) -> (r: BasicPredicate<T>)
        ensures
            asks_json(r, self.spec_name()),
            carried_body(r) matches Some(JSahibONPredicateBody::HasKey { path: at, key: asked })
                && at@ == self.steps()
                && asked == key,
            forall|value: T| #[trigger]
                r.holds(value) == (self.found_object(value) matches Some(object)
                    && object_has(object, key@)),
    {
        self.inner.has_key(key)
    }

    /// Passes where the value is an object with one of the keys.
    pub fn has_any_key(&self, keys: Vec<String>) -> (r: BasicPredicate<T>)
        ensures
            asks_json(r, self.spec_name()),
            carried_body(r) matches Some(JSahibONPredicateBody::HasAnyKey { path: at, keys: asked })
                && at@ == self.steps()
                && asked == keys,
            forall|value: T| #[trigger]
                r.holds(value) == (self.found_object(value) matches Some(object)
                    && has_one_of(object, keys@)),
    {
        self.inner.has_any_key(keys)
    }

    /// Passes where the value is an object with all of the keys.
    pub fn has_all_keys(&self, keys: Vec<String>) -> (r: BasicPredicate<T>)
        ensures
            asks_json(r, self.spec_name()),
            carried_body(r) matches Some(JSahibONPredicateBody::HasAllKeys { path: at, keys: asked })
                && at@ == self.steps()
                && asked == keys,
            forall|value: T| #[trigger]
                r.holds(value) == (self.found_object(value) matches Some(object)
                    && has_all_of(object, keys@)),
    {
        self.inner.has_all_keys(keys)
    }

    /// Passes where the value equals `operand`.
    pub fn eq_json(&self, operand: JSahibON) -> (r: BasicPredicate<T>)
        ensures
            asks_json(r, self.spec_name()),
            carried_body(r) matches Some(JSahibONPredicateBody::JsonEq { path: at, value: asked })
                && at@ == self.steps()
                && asked == operand,
            forall|value: T| #[trigger]
                r.holds(value) == (self.found(value) matches Some(found)
                    && crate::jsahibon::json_eq(found, operand)),
    {
        self.inner.eq_json(operand)
    }

    /// Passes where the value is there and differs from `operand`.
    pub fn neq_json(&self, operand: JSahibON) -> (r: BasicPredicate<T>)
        ensures
            asks_json(r, self.spec_name()),
            carried_body(r) matches Some(JSahibONPredicateBody::JsonNeq { path: at, value: asked })
                && at@ == self.steps()
                && asked == operand,
            forall|value: T| #[trigger]
                r.holds(value) == (self.found(value) matches Some(found)
                    && !crate::jsahibon::json_eq(found, operand)),
    {
        self.inner.neq_json(operand)
    }

    /// Passes where the value is an array with an element that equals `element`.
    pub fn array_contains(&self, element: JSahibON) -> (r: BasicPredicate<T>)
        ensures
            asks_json(r, self.spec_name()),
            carried_body(r) matches Some(JSahibONPredicateBody::ArrayContains { path: at, element: asked })
                && at@ == self.steps()
                && asked == element,
            forall|value: T| #[trigger]
                r.holds(value) == (self.found(value) matches Some(JSahibON::Array(items))
                    && exists|i: int|
                    0 <= i < items@.len()
                        && crate::jsahibon::json_eq(#[trigger] items@[i], element)),
    {
        self.inner.array_contains(element)
    }

    /// Passes where the value is an array of `len` elements.
    pub fn array_len_eq(&self, len: usize) -> (r: BasicPredicate<T>)
        ensures
            asks_json(r, self.spec_name()),
            carried_body(r) matches Some(JSahibONPredicateBody::ArrayLen { path: at, op, len: asked })
                && at@ == self.steps()
                && op == JCompareOp::Eq
                && asked == len,
            forall|value: T| #[trigger]
                r.holds(value) == (self.found(value) matches Some(JSahibON::Array(items))
                    && count_meets(
                    JCompareOp::Eq,
                    items@.len() as int,
                    len as int,
                )),
    {
        self.inner.array_len_eq(len)
    }

    /// Passes where the value is an array of more than `len` elements.
    pub fn array_len_gt(&self, len: usize) -> (r: BasicPredicate<T>)
        ensures
            asks_json(r, self.spec_name()),
            carried_body(r) matches Some(JSahibONPredicateBody::ArrayLen { path: at, op, len: asked })
                && at@ == self.steps()
                && op == JCompareOp::Gt
                && asked == len,
            forall|value: T| #[trigger]
                r.holds(value) == (self.found(value) matches Some(JSahibON::Array(items))
                    && count_meets(
                    JCompareOp::Gt,
                    items@.len() as int,
                    len as int,
                )),
    {
        self.inner.array_len_gt(len)
    }

    /// Passes where the value is an array of at least `len` elements.
    pub fn array_len_gte(&self, len: usize) -> (r: BasicPredicate<T>)
        ensures
            asks_json(r, self.spec_name()),
            carried_body(r) matches Some(JSahibONPredicateBody::ArrayLen { path: at, op, len: asked })
                && at@ == self.steps()
                && op == JCompareOp::Gte
                && asked == len,
            forall|value: T| #[trigger]
                r.holds(value) == (self.found(value) matches Some(JSahibON::Array(items))
                    && count_meets(
                    JCompareOp::Gte,
                    items@.len() as int,
                    len as int,
                )),
    {
        self.inner.array_len_gte(len)
    }

    /// Passes where the value is an array of less than `len` elements.
    pub fn array_len_lt(&self, len: usize) -> (r: BasicPredicate<T>)
        ensures
            asks_json(r, self.spec_name()),
            carried_body(r) matches Some(JSahibONPredicateBody::ArrayLen { path: at, op, len: asked })
                && at@ == self.steps()
                && op == JCompareOp::Lt
                && asked == len,
            forall|value: T| #[trigger]
                r.holds(value) == (self.found(value) matches Some(JSahibON::Array(items))
                    && count_meets(
                    JCompareOp::Lt,
                    items@.len() as int,
                    len as int,
                )),
    {
        self.inner.array_len_lt(len)
    }

    /// Passes where the value is an array of at most `len` elements.
    pub fn array_len_lte(&self, len: usize) -> (r: BasicPredicate<T>)
        ensures
            asks_json(r, self.spec_name()),
            carried_body(r) matches Some(JSahibONPredicateBody::ArrayLen { path: at, op, len: asked })
                && at@ == self.steps()
                && op == JCompareOp::Lte
                && asked == len,
            forall|value: T| #[trigger]
                r.holds(value) == (self.found(value) matches Some(JSahibON::Array(items))
                    && count_meets(
                    JCompareOp::Lte,
                    items@.len() as int,
                    len as int,
                )),
    {
        self.inner.array_len_lte(len)
    }
}

impl<T: Send + Sync + 'static> JSahibONOptionFieldRef<T> {
    /// The JSON value of the field, where it is present.
    pub closed spec fn root_of(&self, value: T) -> Option<JSahibON> {
        self.inner.root_of(value)
    }

    /// The keys to follow.
    pub closed spec fn steps(&self) -> Seq<Seq<char>> {
        self.inner.steps()
    }

    /// The name of the field.
    pub closed spec fn spec_name(&self) -> Seq<char> {
        self.inner.spec_name()
    }

    /// The value that the keys lead to.
    pub open spec fn found(&self, value: T) -> Option<JSahibON> {
        crate::predicate::json_path::resolved(self.root_of(value), self.steps())
    }

    /// The object that the keys lead to.
    pub open spec fn found_object(&self, value: T) -> Option<JObject> {
        crate::predicate::json_path::object_spec(self.root_of(value), self.steps())
    }

    /// `place` is in the same field, at the given keys.
    pub open spec fn leads_to(&self, place: JSahibONPathRef<T>, steps: Seq<Seq<char>>) -> bool {
        &&& place.spec_name() == self.spec_name()
        &&& place.steps() == steps
        &&& forall|value: T| #[trigger] place.root_of(value) == self.root_of(value)
    }

    /// Goes to the field itself.
    pub fn root(&self) -> (r: JSahibONPathRef<T>)
        ensures
            self.leads_to(r, Seq::empty()),
    {
        self.inner.at(JPath::root())
    }

    /// Goes to a dotted path of plain segments.
    pub fn path(&self, dotted: &str) -> (r: JSahibONPathRef<T>)
        requires
            crate::predicate::json_path::plain_path(dotted@),
        ensures
            self.leads_to(r, crate::predicate::json_path::split_dots(dotted@)),
    {
        self.inner.at(JPath::parse_dotted(dotted))
    }

    /// Goes on with a key, taken as it is.
    pub fn key(&self, key: String) -> (r: JSahibONPathRef<T>)
        ensures
            self.leads_to(r, self.steps().push(key@)),
    {
        self.inner.at(self.inner.path.push(key))
    }

    /// Goes to keys, taken as they are.
    pub fn path_segments(&self, segments: Vec<String>) -> (r: JSahibONPathRef<T>)
        ensures
            self.leads_to(r, crate::predicate::json_path::texts(segments@)),
    {
        self.inner.at(JPath::from_segments(segments))
    }

    /// Asks about a scalar.
    pub fn value<V: JScalar>(&self) -> (r: JSahibONValueRef<T, V>)
        ensures
            self.leads_to(r.place(), self.steps()),
    {
        self.inner.value()
    }

    /// Passes where the path leads to a value.
    pub fn is_present(&self) -> (r: BasicPredicate<T>)
        ensures
            asks_json(r, self.spec_name()),
            carried_body(r) matches Some(JSahibONPredicateBody::Exists { path: at })
                && at@ == self.steps(),
            forall|value: T| #[trigger]
                r.holds(value) == self.found(value) is Some,
    {
        self.inner.is_present()
    }

    /// Passes where the path leads nowhere.
    pub fn missing(&self) -> (r: BasicPredicate<T>)
        ensures
            asks_json(r, self.spec_name()),
            carried_body(r) matches Some(JSahibONPredicateBody::Missing { path: at })
                && at@ == self.steps(),
            forall|value: T| #[trigger]
                r.holds(value) == self.found(value) is None,
    {
        self.inner.missing()
    }

    /// Passes where the value is null.
    pub fn is_json_null(&self) -> (r: BasicPredicate<T>)
        ensures
            asks_json(r, self.spec_name()),
            carried_body(r) matches Some(JSahibONPredicateBody::IsJsonNull { path: at })
                && at@ == self.steps(),
            forall|value: T| #[trigger]
                r.holds(value) == (self.found(value) matches Some(found) && found is Null),
    {
        self.inner.is_json_null()
    }

    /// Passes where the value is there and is not null.
    pub fn is_not_json_null(&self) -> (r: BasicPredicate<T>)
        ensures
            asks_json(r, self.spec_name()),
            carried_body(r) matches Some(JSahibONPredicateBody::IsNotJsonNull { path: at })
                && at@ == self.steps(),
            forall|value: T| #[trigger]
                r.holds(value) == (self.found(value) matches Some(found) && !(found is Null)),
    {
        self.inner.is_not_json_null()
    }

    /// Passes where the value is of the kind.
    pub fn is_type(&self, kind: JTypeKind) -> (r: BasicPredicate<T>)
        ensures
            asks_json(r, self.spec_name()),
            carried_body(r) matches Some(JSahibONPredicateBody::Type { path: at, kind: asked })
                && at@ == self.steps()
                && asked == kind,
            forall|value: T| #[trigger]
                r.holds(value) == (self.found(value) matches Some(found)
                    && type_matches(found, kind)),
    {
        self.inner.is_type(kind)
    }

    /// Passes where the value is a truth value.
    pub fn is_bool(&self) -> (r: BasicPredicate<T>)
        ensures
            asks_json(r, self.spec_name()),
            carried_body(r) matches Some(JSahibONPredicateBody::Type { path: at, kind: asked })
                && at@ == self.steps()
                && asked == JTypeKind::Bool,
            forall|value: T| #[trigger]
                r.holds(value) == (self.found(value) matches Some(found)
                    && type_matches(found, JTypeKind::Bool)),
    {
        self.inner.is_bool()
    }

    /// Passes where the value is a number.
    pub fn is_number(&self) -> (r: BasicPredicate<T>)
        ensures
            asks_json(r, self.spec_name()),
            carried_body(r) matches Some(JSahibONPredicateBody::Type { path: at, kind: asked })
                && at@ == self.steps()
                && asked == JTypeKind::Number,
            forall|value: T| #[trigger]
                r.holds(value) == (self.found(value) matches Some(found)
                    && type_matches(found, JTypeKind::Number)),
    {
        self.inner.is_number()
    }

    /// Passes where the value is a string.
    pub fn is_string(&self) -> (r: BasicPredicate<T>)
        ensures
            asks_json(r, self.spec_name()),
            carried_body(r) matches Some(JSahibONPredicateBody::Type { path: at, kind: asked })
                && at@ == self.steps()
                && asked == JTypeKind::String,
            forall|value: T| #[trigger]
                r.holds(value) == (self.found(value) matches Some(found)
                    && type_matches(found, JTypeKind::String)),
    {
        self.inner.is_string()
    }

    /// Passes where the value is an array.
    pub fn is_array(&self) -> (r: BasicPredicate<T>)
        ensures
            asks_json(r, self.spec_name()),
            carried_body(r) matches Some(JSahibONPredicateBody::Type { path: at, kind: asked })
                && at@ == self.steps()
                && asked == JTypeKind::Array,
            forall|value: T| #[trigger]
                r.holds(value) == (self.found(value) matches Some(found)
                    && type_matches(found, JTypeKind::Array)),
    {
        self.inner.is_array()
    }

    /// Passes where the value is an object.
    pub fn is_object(&self) -> (r: BasicPredicate<T>)
        ensures
            asks_json(r, self.spec_name()),
            carried_body(r) matches Some(JSahibONPredicateBody::Type { path: at, kind: asked })
                && at@ == self.steps()
                && asked == JTypeKind::Object,
            forall|value: T| #[trigger]
                r.holds(value) == (self.found(value) matches Some(found)
                    && type_matches(found, JTypeKind::Object)),
    {
        self.inner.is_object()
    }

    /// Passes where the value is an object with the key.
    pub fn has_key(&self, key: String) -> (r: BasicPredicate<T>)
        ensures
            asks_json(r, self.spec_name()),
            carried_body(r) matches Some(JSahibONPredicateBody::HasKey { path: at, key: asked })
                && at@ == self.steps()
                && asked == key,
            forall|value: T| #[trigger]
                r.holds(value) == (self.found_object(value) matches Some(object)
                    && object_has(object, key@)),
    {
        self.inner.has_key(key)
    }

    /// Passes where the value is an object with one of the keys.
    pub fn has_any_key(&self, keys: Vec<String>) -> (r: BasicPredicate<T>)
        ensures
            asks_json(r, self.spec_name()),
            carried_body(r) matches Some(JSahibONPredicateBody::HasAnyKey { path: at, keys: asked })
                && at@ == self.steps()
                && asked == keys,
            forall|value: T| #[trigger]
                r.holds(value) == (self.found_object(value) matches Some(object)
                    && has_one_of(object, keys@)),
    {
        self.inner.has_any_key(keys)
    }

    /// Passes where the value is an object with all of the keys.
    pub fn has_all_keys(&self, keys: Vec<String>) -> (r: BasicPredicate<T>)
        ensures
            asks_json(r, self.spec_name()),
            carried_body(r) matches Some(JSahibONPredicateBody::HasAllKeys { path: at, keys: asked })
                && at@ == self.steps()
                && asked == keys,
            forall|value: T| #[trigger]
                r.holds(value) == (self.found_object(value) matches Some(object)
                    && has_all_of(object, keys@)),
    {
        self.inner.has_all_keys(keys)
    }

    /// Passes where the value equals `operand`.
    pub fn eq_json(&self, operand: JSahibON) -> (r: BasicPredicate<T>)
        ensures
            asks_json(r, self.spec_name()),
            carried_body(r) matches Some(JSahibONPredicateBody::JsonEq { path: at, value: asked })
                && at@ == self.steps()
                && asked == operand,
            forall|value: T| #[trigger]
                r.holds(value) == (self.found(value) matches Some(found)
                    && crate::jsahibon::json_eq(found, operand)),
    {
        self.inner.eq_json(operand)
    }

    /// Passes where the value is there and differs from `operand`.
    pub fn neq_json(&self, operand: JSahibON) -> (r: BasicPredicate<T>)
        ensures
            asks_json(r, self.spec_name()),
            carried_body(r) matches Some(JSahibONPredicateBody::JsonNeq { path: at, value: asked })
                && at@ == self.steps()
                && asked == operand,
            forall|value: T| #[trigger]
                r.holds(value) == (self.found(value) matches Some(found)
                    && !crate::jsahibon::json_eq(found, operand)),
    {
        self.inner.neq_json(operand)
    }

    /// Passes where the value is an array with an element that equals `element`.
    pub fn array_contains(&self, element: JSahibON) -> (r: BasicPredicate<T>)
        ensures
            asks_json(r, self.spec_name()),
            carried_body(r) matches Some(JSahibONPredicateBody::ArrayContains { path: at, element: asked })
                && at@ == self.steps()
                && asked == element,
            forall|value: T| #[trigger]
                r.holds(value) == (self.found(value) matches Some(JSahibON::Array(items))
                    && exists|i: int|
                    0 <= i < items@.len()
                        && crate::jsahibon::json_eq(#[trigger] items@[i], element)),
    {
        self.inner.array_contains(element)
    }

    /// Passes where the value is an array of `len` elements.
    pub fn array_len_eq(&self, len: usize) -> (r: BasicPredicate<T>)
        ensures
            asks_json(r, self.spec_name()),
            carried_body(r) matches Some(JSahibONPredicateBody::ArrayLen { path: at, op, len: asked })
                && at@ == self.steps()
                && op == JCompareOp::Eq
                && asked == len,
            forall|value: T| #[trigger]
                r.holds(value) == (self.found(value) matches Some(JSahibON::Array(items))
                    && count_meets(
                    JCompareOp::Eq,
                    items@.len() as int,
                    len as int,
                )),
    {
        self.inner.array_len_eq(len)
    }

    /// Passes where the value is an array of more than `len` elements.
    pub fn array_len_gt(&self, len: usize) -> (r: BasicPredicate<T>)
        ensures
            asks_json(r, self.spec_name()),
            carried_body(r) matches Some(JSahibONPredicateBody::ArrayLen { path: at, op, len: asked })
                && at@ == self.steps()
                && op == JCompareOp::Gt
                && asked == len,
            forall|value: T| #[trigger]
                r.holds(value) == (self.found(value) matches Some(JSahibON::Array(items))
                    && count_meets(
                    JCompareOp::Gt,
                    items@.len() as int,
                    len as int,
                )),
    {
        self.inner.array_len_gt(len)
    }

    /// Passes where the value is an array of at least `len` elements.
    pub fn array_len_gte(&self, len: usize) -> (r: BasicPredicate<T>)
        ensures
            asks_json(r, self.spec_name()),
            carried_body(r) matches Some(JSahibONPredicateBody::ArrayLen { path: at, op, len: asked })
                && at@ == self.steps()
                && op == JCompareOp::Gte
                && asked == len,
            forall|value: T| #[trigger]
                r.holds(value) == (self.found(value) matches Some(JSahibON::Array(items))
                    && count_meets(
                    JCompareOp::Gte,
                    items@.len() as int,
                    len as int,
                )),
    {
        self.inner.array_len_gte(len)
    }

    /// Passes where the value is an array of less than `len` elements.
    pub fn array_len_lt(&self, len: usize) -> (r: BasicPredicate<T>)
        ensures
            asks_json(r, self.spec_name()),
            carried_body(r) matches Some(JSahibONPredicateBody::ArrayLen { path: at, op, len: asked })
                && at@ == self.steps()
                && op == JCompareOp::Lt
                && asked == len,
            forall|value: T| #[trigger]
                r.holds(value) == (self.found(value) matches Some(JSahibON::Array(items))
                    && count_meets(
                    JCompareOp::Lt,
                    items@.len() as int,
                    len as int,
                )),
    {
        self.inner.array_len_lt(len)
    }

    /// Passes where the value is an array of at most `len` elements.
    pub fn array_len_lte(&self, len: usize) -> (r: BasicPredicate<T>)
        ensures
            asks_json(r, self.spec_name()),
            carried_body(r) matches Some(JSahibONPredicateBody::ArrayLen { path: at, op, len: asked })
                && at@ == self.steps()
                && op == JCompareOp::Lte
                && asked == len,
            forall|value: T| #[trigger]
                r.holds(value) == (self.found(value) matches Some(JSahibON::Array(items))
                    && count_meets(
                    JCompareOp::Lte,
                    items@.len() as int,
                    len as int,
                )),
    {
        self.inner.array_len_lte(len)
    }
}

/// One of `values` equals the scalar.
pub open spec fn is_one_of_scalars<V: JScalar>(values: Seq<V>, left: JScalarValue) -> bool {
    exists|i: int| 0 <= i < values.len() && scalar_eq(left, (#[trigger] values[i]).spec_scalar())
}

/// The operands that `values` make.
pub open spec fn scalars<V: JScalar>(values: Seq<V>) -> Seq<JScalarValue> {
    Seq::new(values.len(), |i: int| values[i].spec_scalar())
}

/// A scalar is one of the values where it is listed among the operands that they make.
proof fn lemma_listed_scalars<V: JScalar>(values: Seq<V>)
    ensures
        forall|left: JScalarValue| #[trigger]
            is_one_of_scalars(values, left) == is_listed(left, scalars(values)),
{
    let made = scalars(values);
    assert forall|left: JScalarValue| #[trigger] is_one_of_scalars(values, left) == is_listed(
        left,
        made,
    ) by {
        if is_one_of_scalars(values, left) {
            let i = choose|i: int|
                0 <= i < values.len() && scalar_eq(left, (#[trigger] values[i]).spec_scalar());
            assert(made[i] == values[i].spec_scalar());
        }
        if is_listed(left, made) {
            let i = choose|i: int| 0 <= i < made.len() && scalar_eq(left, #[trigger] made[i]);
            assert(scalar_eq(left, values[i].spec_scalar()));
        }
    }
}

/// Makes operands.
fn scalar_values<V: JScalar>(values: Vec<V>) -> (r: Vec<JScalarValue>)
    ensures
        r@ == scalars(values@),
{
    let ghost all = values@;
    let mut r: Vec<JScalarValue> = Vec::new();
    for value in it: values
        invariant
            it.seq() == all,
            r@.len() == it.index(),
            forall|i: int| 0 <= i < it.index() ==> #[trigger] r@[i] == all[i].spec_scalar(),
    {
        r.push(value.into_scalar_value());
    }
    assert(r@ =~= scalars(all));
    r
}

impl<T: Send + Sync + 'static, V: JScalar> JSahibONValueRef<T, V> {
    /// The place of the scalar.
    pub closed spec fn place(&self) -> JSahibONPathRef<T> {
        self.inner
    }

    /// The scalar at the place, where there is one of the kind.
    pub open spec fn found(&self, value: T) -> Option<JScalarValue> {
        scalar_spec(self.place().root_of(value), self.place().steps(), V::spec_kind())
    }

    /// Passes where the value is a scalar of the kind and equals `operand`.
    pub fn eq(&self, operand: V) -> (r: BasicPredicate<T>)
        ensures
            asks_json(r, self.place().spec_name()),
            carried_body(r) matches Some(JSahibONPredicateBody::ScalarCompare { path: at, op, scalar_kind, operand: asked })
                && at@ == self.place().steps()
                && op == JCompareOp::Eq
                && scalar_kind == V::spec_kind()
                && asked == operand.spec_scalar(),
            forall|value: T| #[trigger]
                r.holds(value) == (self.found(value) matches Some(left)
                    && scalar_meets(JCompareOp::Eq, left, operand.spec_scalar())),
    {
        let path = self.inner.path.copy();
        let operand = operand.into_scalar_value();
        self.inner.predicate(
            JSahibONPredicateBody::ScalarCompare {
                path,
                op: JCompareOp::Eq,
                scalar_kind: V::kind(),
                operand,
            },
        )
    }

    /// Passes where the value is a scalar of the kind and differs from `operand`.
    pub fn neq(&self, operand: V) -> (r: BasicPredicate<T>)
        ensures
            asks_json(r, self.place().spec_name()),
            carried_body(r) matches Some(JSahibONPredicateBody::ScalarCompare { path: at, op, scalar_kind, operand: asked })
                && at@ == self.place().steps()
                && op == JCompareOp::Neq
                && scalar_kind == V::spec_kind()
                && asked == operand.spec_scalar(),
            forall|value: T| #[trigger]
                r.holds(value) == (self.found(value) matches Some(left)
                    && scalar_meets(JCompareOp::Neq, left, operand.spec_scalar())),
    {
        let path = self.inner.path.copy();
        let operand = operand.into_scalar_value();
        self.inner.predicate(
            JSahibONPredicateBody::ScalarCompare {
                path,
                op: JCompareOp::Neq,
                scalar_kind: V::kind(),
                operand,
            },
        )
    }

    /// Passes where the value is a scalar of the kind and one of `values`.
    pub fn in_(&self, values: Vec<V>) -> (r: BasicPredicate<T>)
        ensures
            asks_json(r, self.place().spec_name()),
            carried_body(r) matches Some(JSahibONPredicateBody::ScalarIn { path: at, scalar_kind, operands: asked, polarity })
                && at@ == self.place().steps()
                && scalar_kind == V::spec_kind()
                && asked@ == scalars(values@)
                && polarity == JInPolarity::In,
            forall|value: T| #[trigger]
                r.holds(value) == (self.found(value) matches Some(left)
                    && is_one_of_scalars(values@, left)),
    {
        let path = self.inner.path.copy();
        let operands = scalar_values(values);
        let r = self.inner.predicate(
            JSahibONPredicateBody::ScalarIn {
                path,
                scalar_kind: V::kind(),
                operands,
                polarity: JInPolarity::In,
            },
        );
        proof {
            lemma_listed_scalars(values@);
        }
        r
    }

    /// Passes where the value is a scalar of the kind and none of `values`.
    pub fn not_in(&self, values: Vec<V>) -> (r: BasicPredicate<T>)
        ensures
            asks_json(r, self.place().spec_name()),
            carried_body(r) matches Some(JSahibONPredicateBody::ScalarIn { path: at, scalar_kind, operands: asked, polarity })
                && at@ == self.place().steps()
                && scalar_kind == V::spec_kind()
                && asked@ == scalars(values@)
                && polarity == JInPolarity::NotIn,
            forall|value: T| #[trigger]
                r.holds(value) == (self.found(value) matches Some(left)
                    && !is_one_of_scalars(values@, left)),
    {
        let path = self.inner.path.copy();
        let operands = scalar_values(values);
        let r = self.inner.predicate(
            JSahibONPredicateBody::ScalarIn {
                path,
                scalar_kind: V::kind(),
                operands,
                polarity: JInPolarity::NotIn,
            },
        );
        proof {
            lemma_listed_scalars(values@);
        }
        r
    }
}

impl<T: Send + Sync + 'static, V: JOrderedScalar> JSahibONValueRef<T, V> {
    /// Passes where the value is a scalar of the kind and greater than `operand`.
    pub fn gt(&self, operand: V) -> (r: BasicPredicate<T>)
        ensures
            asks_json(r, self.place().spec_name()),
            carried_body(r) matches Some(JSahibONPredicateBody::ScalarCompare { path: at, op, scalar_kind, operand: asked })
                && at@ == self.place().steps()
                && op == JCompareOp::Gt
                && scalar_kind == V::spec_kind()
                && asked == operand.spec_scalar(),
            forall|value: T| #[trigger]
                r.holds(value) == (self.found(value) matches Some(left)
                    && scalar_meets(JCompareOp::Gt, left, operand.spec_scalar())),
    {
        let path = self.inner.path.copy();
        let operand = operand.into_scalar_value();
        self.inner.predicate(
            JSahibONPredicateBody::ScalarCompare {
                path,
                op: JCompareOp::Gt,
                scalar_kind: V::kind(),
                operand,
            },
        )
    }

    /// Passes where the value is a scalar of the kind and at least `operand`.
    pub fn gte(&self, operand: V) -> (r: BasicPredicate<T>)
        ensures
            asks_json(r, self.place().spec_name()),
            carried_body(r) matches Some(JSahibONPredicateBody::ScalarCompare { path: at, op, scalar_kind, operand: asked })
                && at@ == self.place().steps()
                && op == JCompareOp::Gte
                && scalar_kind == V::spec_kind()
                && asked == operand.spec_scalar(),
            forall|value: T| #[trigger]
                r.holds(value) == (self.found(value) matches Some(left)
                    && scalar_meets(JCompareOp::Gte, left, operand.spec_scalar())),
    {
        let path = self.inner.path.copy();
        let operand = operand.into_scalar_value();
        self.inner.predicate(
            JSahibONPredicateBody::ScalarCompare {
                path,
                op: JCompareOp::Gte,
                scalar_kind: V::kind(),
                operand,
            },
        )
    }

    /// Passes where the value is a scalar of the kind and less than `operand`.
    pub fn lt(&self, operand: V) -> (r: BasicPredicate<T>)
        ensures
            asks_json(r, self.place().spec_name()),
            carried_body(r) matches Some(JSahibONPredicateBody::ScalarCompare { path: at, op, scalar_kind, operand: asked })
                && at@ == self.place().steps()
                && op == JCompareOp::Lt
                && scalar_kind == V::spec_kind()
                && asked == operand.spec_scalar(),
            forall|value: T| #[trigger]
                r.holds(value) == (self.found(value) matches Some(left)
                    && scalar_meets(JCompareOp::Lt, left, operand.spec_scalar())),
    {
        let path = self.inner.path.copy();
        let operand = operand.into_scalar_value();
        self.inner.predicate(
            JSahibONPredicateBody::ScalarCompare {
                path,
                op: JCompareOp::Lt,
                scalar_kind: V::kind(),
                operand,
            },
        )
    }

    /// Passes where the value is a scalar of the kind and at most `operand`.
    pub fn lte(&self, operand: V) -> (r: BasicPredicate<T>)
        ensures
            asks_json(r, self.place().spec_name()),
            carried_body(r) matches Some(JSahibONPredicateBody::ScalarCompare { path: at, op, scalar_kind, operand: asked })
                && at@ == self.place().steps()
                && op == JCompareOp::Lte
                && scalar_kind == V::spec_kind()
                && asked == operand.spec_scalar(),
            forall|value: T| #[trigger]
                r.holds(value) == (self.found(value) matches Some(left)
                    && scalar_meets(JCompareOp::Lte, left, operand.spec_scalar())),
    {
        let path = self.inner.path.copy();
        let operand = operand.into_scalar_value();
        self.inner.predicate(
            JSahibONPredicateBody::ScalarCompare {
                path,
                op: JCompareOp::Lte,
                scalar_kind: V::kind(),
                operand,
            },
        )
    }

    /// Passes where the value is a scalar of the kind between `low` and `high`, both included.
    pub fn between(&self, low: V, high: V) -> (r: BasicPredicate<T>)
        ensures
            asks_json(r, self.place().spec_name()),
            carried_body(r) matches Some(JSahibONPredicateBody::ScalarBetween { path: at, scalar_kind, low: least, high: most })
                && at@ == self.place().steps()
                && scalar_kind == V::spec_kind()
                && least == low.spec_scalar()
                && most == high.spec_scalar(),
            forall|value: T| #[trigger]
                r.holds(value) == (self.found(value) matches Some(left)
                    && scalar_meets(JCompareOp::Gte, left, low.spec_scalar()) && scalar_meets(
                    JCompareOp::Lte,
                    left,
                    high.spec_scalar(),
                )),
    {
        let path = self.inner.path.copy();
        let low = low.into_scalar_value();
        let high = high.into_scalar_value();
        self.inner.predicate(
            JSahibONPredicateBody::ScalarBetween { path, scalar_kind: V::kind(), low, high },
        )
    }
}

/// A value is there or missing, never both.
pub proof fn present_or_missing(root: Option<JSahibON>, present: JPath, missing: JPath)
    requires
        present@ == missing@,
    ensures
        body_holds(root, (JSahibONPredicateBody::Exists { path: present })) == !body_holds(
            root,
            (JSahibONPredicateBody::Missing { path: missing }),
        ),
{
}

/// The path of a body.
pub open spec fn body_path(body: JSahibONPredicateBody) -> Seq<Seq<char>> {
    match body {
        JSahibONPredicateBody::Exists { path } => path@,
        JSahibONPredicateBody::Missing { path } => path@,
        JSahibONPredicateBody::IsJsonNull { path } => path@,
        JSahibONPredicateBody::IsNotJsonNull { path } => path@,
        JSahibONPredicateBody::Type { path, .. } => path@,
        JSahibONPredicateBody::HasKey { path, .. } => path@,
        JSahibONPredicateBody::HasAnyKey { path, .. } => path@,
        JSahibONPredicateBody::HasAllKeys { path, .. } => path@,
        JSahibONPredicateBody::ScalarCompare { path, .. } => path@,
        JSahibONPredicateBody::ScalarIn { path, .. } => path@,
        JSahibONPredicateBody::ScalarBetween { path, .. } => path@,
        JSahibONPredicateBody::JsonEq { path, .. } => path@,
        JSahibONPredicateBody::JsonNeq { path, .. } => path@,
        JSahibONPredicateBody::ArrayContains { path, .. } => path@,
        JSahibONPredicateBody::ArrayLen { path, .. } => path@,
    }
}

/// Where a path leads nowhere, only the question whether it does passes; the
/// negative ones do not.
pub proof fn missing_values_pass_nothing_but_missing(
    root: Option<JSahibON>,
    body: JSahibONPredicateBody,
)
    requires
        crate::predicate::json_path::resolved(root, body_path(body)) is None,
    ensures
        body_holds(root, body) == (body is Missing),
{
}

} // verus!
