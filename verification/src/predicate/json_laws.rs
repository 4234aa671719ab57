//! What holds of every question that is asked of a JSON value.

use vstd::prelude::*;
use crate::jsahibon::{JFiniteF64, JSahibON};
use crate::json::binary64::{FRACTION, SIGN};
use crate::predicate::jsahibon::{
    JCompareOp, JInPolarity, JSahibONPredicateBody, JScalarKind, JScalarValue, JTypeKind,
};
use crate::predicate::json_path::JPath;

verus! {

/// The integer that a scalar is.
pub open spec fn integer_of(v: JScalarValue) -> Option<int> {
    match v {
        JScalarValue::I64(n) => Some(n as int),
        JScalarValue::U64(n) => Some(n as int),
        _ => None,
    }
}

/// Whether a scalar is a number.
pub open spec fn is_number(v: JScalarValue) -> bool {
    v is I64 || v is U64 || v is F64
}

/// Integers, signed or not, compare by their values.
pub proof fn integer_scalars_compare_by_value(a: JScalarValue, b: JScalarValue, x: int, y: int)
    requires
        integer_of(a) == Some(x),
        integer_of(b) == Some(y),
    ensures
        crate::predicate::jsahibon::scalar_meets(JCompareOp::Gt, a, b) <==> x > y,
        crate::predicate::jsahibon::scalar_meets(JCompareOp::Gte, a, b) <==> x >= y,
        crate::predicate::jsahibon::scalar_meets(JCompareOp::Lt, a, b) <==> x < y,
        crate::predicate::jsahibon::scalar_meets(JCompareOp::Lte, a, b) <==> x <= y,
        crate::predicate::jsahibon::scalar_meets(JCompareOp::Eq, a, b) <==> x == y,
        crate::predicate::jsahibon::scalar_meets(JCompareOp::Neq, a, b) <==> x != y,
{
    lemma_numbers(a, b);
    crate::json::binary64::integers_compare_in_units(x, y);
    crate::json::binary64::integers_compare_in_units(y, x);
}

/// Equality of numbers is that of their exact values.
proof fn lemma_numbers(a: JScalarValue, b: JScalarValue)
    requires
        is_number(a),
        is_number(b),
    ensures
        crate::jsahibon::numeric(crate::predicate::jsahibon::scalar_json(a)) is Some,
        crate::jsahibon::numeric(crate::predicate::jsahibon::scalar_json(b)) is Some,
        crate::predicate::jsahibon::scalar_eq(a, b) <==> crate::jsahibon::numeric(
            crate::predicate::jsahibon::scalar_json(a),
        ) == crate::jsahibon::numeric(crate::predicate::jsahibon::scalar_json(b)),
{
    crate::jsahibon::equal_numbers_compare_as_equal(
        crate::predicate::jsahibon::scalar_json(a),
        crate::predicate::jsahibon::scalar_json(b),
    );
}

/// Of any two numbers exactly one is less, or they are equal; greater is less the other
/// way round, and the weak comparisons are the strict ones or equality.
pub proof fn numbers_compare_in_one_way(a: JScalarValue, b: JScalarValue)
    requires
        is_number(a),
        is_number(b),
    ensures
        ({
            let lt = crate::predicate::jsahibon::scalar_meets(JCompareOp::Lt, a, b);
            let eq = crate::predicate::jsahibon::scalar_meets(JCompareOp::Eq, a, b);
            let gt = crate::predicate::jsahibon::scalar_meets(JCompareOp::Gt, a, b);
            &&& lt || eq || gt
            &&& !(lt && eq) && !(lt && gt) && !(eq && gt)
            &&& gt == crate::predicate::jsahibon::scalar_meets(JCompareOp::Lt, b, a)
            &&& eq == crate::predicate::jsahibon::scalar_meets(JCompareOp::Eq, b, a)
            &&& crate::predicate::jsahibon::scalar_meets(JCompareOp::Gte, a, b) == (gt || eq)
            &&& crate::predicate::jsahibon::scalar_meets(JCompareOp::Lte, a, b) == (lt || eq)
            &&& crate::predicate::jsahibon::scalar_meets(JCompareOp::Neq, a, b) == !eq
        }),
{
    lemma_numbers(a, b);
    lemma_numbers(b, a);
}

/// A number greater than another is greater than all that the other is greater than.
pub proof fn greater_numbers_stay_greater(a: JScalarValue, b: JScalarValue, c: JScalarValue)
    requires
        is_number(a),
        is_number(b),
        is_number(c),
        crate::predicate::jsahibon::scalar_meets(JCompareOp::Gt, a, b),
        crate::predicate::jsahibon::scalar_meets(JCompareOp::Gte, b, c),
    ensures
        crate::predicate::jsahibon::scalar_meets(JCompareOp::Gt, a, c),
{
}

/// A float compares with an integer, and with another float, by their exact values: `n` in
/// the units in which floats are whole is `n` times two to the power of 1074.
pub proof fn floats_compare_by_value(f: JFiniteF64, g: JFiniteF64, n: i64, u: u64)
    ensures
        ({
            let one = vstd::arithmetic::power2::pow2(1074) as int;
            let x = JScalarValue::F64(f);
            &&& crate::predicate::jsahibon::scalar_meets(JCompareOp::Gt, x, JScalarValue::F64(g))
                <==> f.units() > g.units()
            &&& crate::predicate::jsahibon::scalar_meets(JCompareOp::Eq, x, JScalarValue::F64(g))
                <==> f.units() == g.units()
            &&& crate::predicate::jsahibon::scalar_meets(JCompareOp::Gt, x, JScalarValue::I64(n))
                <==> f.units() > n * one
            &&& crate::predicate::jsahibon::scalar_meets(JCompareOp::Lt, x, JScalarValue::I64(n))
                <==> f.units() < n * one
            &&& crate::predicate::jsahibon::scalar_meets(JCompareOp::Gt, x, JScalarValue::U64(u))
                <==> f.units() > u * one
            &&& crate::predicate::jsahibon::scalar_meets(JCompareOp::Lt, x, JScalarValue::U64(u))
                <==> f.units() < u * one
        }),
{
    lemma_numbers(JScalarValue::F64(f), JScalarValue::F64(g));
}

/// Texts and truth values equal what is the same text or truth value, and nothing else;
/// they are neither less nor greater than anything.
pub proof fn texts_and_flags_are_only_equal(a: JScalarValue, b: JScalarValue)
    requires
        !is_number(a),
    ensures
        crate::predicate::jsahibon::scalar_meets(JCompareOp::Eq, a, b) <==> match (a, b) {
            (JScalarValue::String(s), JScalarValue::String(t)) => s@ == t@,
            (JScalarValue::Bool(p), JScalarValue::Bool(q)) => p == q,
            _ => false,
        },
        crate::predicate::jsahibon::scalar_meets(JCompareOp::Neq, a, b)
            == !crate::predicate::jsahibon::scalar_meets(JCompareOp::Eq, a, b),
        !crate::predicate::jsahibon::scalar_meets(JCompareOp::Gt, a, b),
        !crate::predicate::jsahibon::scalar_meets(JCompareOp::Gte, a, b),
        !crate::predicate::jsahibon::scalar_meets(JCompareOp::Lt, a, b),
        !crate::predicate::jsahibon::scalar_meets(JCompareOp::Lte, a, b),
{
    crate::jsahibon::json_eq_unfolds(
        crate::predicate::jsahibon::scalar_json(a),
        crate::predicate::jsahibon::scalar_json(b),
    );
}

/// The value of a positive float by its two fields: a significand of fifty-three bits whose
/// weight doubles with each exponent, or the plain fraction where the exponent is zero. The
/// sign bit makes it negative.
pub proof fn float_value_by_its_fields(e: u64, fraction: u64)
    requires
        e < 0x7ff,
        fraction < FRACTION,
    ensures
        ({
            let bits = (e * FRACTION + fraction) as u64;
            let negative = (SIGN + bits) as u64;
            &&& crate::json::binary64::finite(bits)
            &&& e > 0 ==> crate::json::binary64::units(bits) == (fraction + FRACTION)
                * vstd::arithmetic::power2::pow2((e - 1) as nat)
            &&& e == 0 ==> crate::json::binary64::units(bits) == fraction
            &&& crate::json::binary64::units(negative) == -crate::json::binary64::units(bits)
        }),
{
    let bits = (e * FRACTION + fraction) as u64;
    let negative = (SIGN + bits) as u64;
    assert(e * FRACTION + fraction < SIGN) by (nonlinear_arith)
        requires
            e < 0x7ff,
            fraction < FRACTION,
            FRACTION == 0x10_0000_0000_0000u64,
            SIGN == 0x8000_0000_0000_0000u64,
    ;
    assert(bits == e * FRACTION + fraction);
    assert(bits % SIGN == bits);
    assert(negative % SIGN == bits);
    vstd::arithmetic::div_mod::lemma_fundamental_div_mod_converse(
        bits as int,
        FRACTION as int,
        e as int,
        fraction as int,
    );
    assert(bits / FRACTION == e);
    assert(bits % FRACTION == fraction);
    assert(negative == (e + 2048) * FRACTION + fraction) by (nonlinear_arith)
        requires
            negative == SIGN + bits,
            bits == e * FRACTION + fraction,
            SIGN == 2048 * FRACTION,
    ;
    vstd::arithmetic::div_mod::lemma_fundamental_div_mod_converse(
        negative as int,
        FRACTION as int,
        e + 2048,
        fraction as int,
    );
    assert(negative % FRACTION == fraction);
    vstd::arithmetic::power2::lemma2_to64();
    assert(crate::json::binary64::exponent(bits) == e);
    assert(crate::json::binary64::exponent(negative) == e);
    assert(crate::json::binary64::significand(bits) == crate::json::binary64::significand(
        negative,
    ));
    assert(crate::json::binary64::magnitude(bits) == crate::json::binary64::magnitude(negative));
    assert(!crate::json::binary64::sign_bit(bits) && crate::json::binary64::sign_bit(negative));
    if e == 0 {
        assert(fraction as nat * vstd::arithmetic::power2::pow2(0) == fraction) by (
            nonlinear_arith)
            requires
                vstd::arithmetic::power2::pow2(0) == 1,
        ;
    }
}

/// The float whose fraction is zero and whose exponent is `k` above the middle is two to
/// the power of `k`, exactly.
pub proof fn powers_of_two_are_exact(k: nat)
    requires
        k <= 1023,
    ensures
        crate::json::binary64::units(((1023 + k) * FRACTION) as u64)
            == crate::json::binary64::integer_units(vstd::arithmetic::power2::pow2(k) as int),
{
    let e = (1023 + k) as u64;
    float_value_by_its_fields(e, 0);
    vstd::arithmetic::power2::lemma2_to64();
    assert(FRACTION == vstd::arithmetic::power2::pow2(52)) by {
        vstd::arithmetic::power2::lemma2_to64_rest();
    }
    vstd::arithmetic::power2::lemma_pow2_adds(52, (e - 1) as nat);
    vstd::arithmetic::power2::lemma_pow2_adds(k, 1074);
}

/// A key leads on where the path leads to an object that has an entry of the key, and to
/// the value of that entry. No keys lead to the root.
pub proof fn paths_follow_their_keys(
    root: Option<JSahibON>,
    path: Seq<Seq<char>>,
    key: Seq<char>,
)
    ensures
        crate::predicate::json_path::resolved(root, Seq::empty()) == root,
        match crate::predicate::json_path::resolved(root, path) {
            Some(JSahibON::Object(object)) => match crate::predicate::json_path::resolved(
                root,
                path.push(key),
            ) {
                Some(value) => exists|i: int|
                    0 <= i < object@.len() && (#[trigger] object@[i]).0 == key && object@[i].1
                        == value && forall|j: int| 0 <= j < i ==> (#[trigger] object@[j]).0 != key,
                None => forall|i: int| 0 <= i < object@.len() ==> (#[trigger] object@[i]).0 != key,
            },
            _ => crate::predicate::json_path::resolved(root, path.push(key)) is None,
        },
{
    assert(path.push(key).drop_last() =~= path);
    if let Some(JSahibON::Object(object)) = crate::predicate::json_path::resolved(root, path) {
        crate::jsahibon::lemma_key_index(object@, key);
        if crate::jsahibon::has_key(object@, key) {
            let i = crate::jsahibon::key_index(object@, key);
            assert(object@[i].0 == key);
        }
    }
}

/// What the questions about presence, null and kind ask of the value that a path leads to.
pub proof fn plain_questions(root: Option<JSahibON>, path: JPath, kind: JTypeKind)
    ensures
        ({
            let found = crate::predicate::json_path::resolved(root, path@);
            &&& crate::predicate::jsahibon::body_holds(root, JSahibONPredicateBody::Exists { path })
                <==> found is Some
            &&& crate::predicate::jsahibon::body_holds(
                root,
                JSahibONPredicateBody::Missing { path },
            ) <==> found is None
            &&& crate::predicate::jsahibon::body_holds(
                root,
                JSahibONPredicateBody::IsJsonNull { path },
            ) <==> found == Some(JSahibON::Null)
            &&& crate::predicate::jsahibon::body_holds(
                root,
                JSahibONPredicateBody::IsNotJsonNull { path },
            ) <==> found is Some && found != Some(JSahibON::Null)
            &&& crate::predicate::jsahibon::body_holds(
                root,
                JSahibONPredicateBody::Type { path, kind },
            ) <==> match found {
                Some(JSahibON::Null) => kind == JTypeKind::Null,
                Some(JSahibON::Bool(_)) => kind == JTypeKind::Bool,
                Some(JSahibON::I64(_)) => kind == JTypeKind::Number,
                Some(JSahibON::U64(_)) => kind == JTypeKind::Number,
                Some(JSahibON::F64(_)) => kind == JTypeKind::Number,
                Some(JSahibON::String(_)) => kind == JTypeKind::String,
                Some(JSahibON::Array(_)) => kind == JTypeKind::Array,
                Some(JSahibON::Object(_)) => kind == JTypeKind::Object,
                None => false,
            }
        }),
{
}

/// Whether an object has an entry of a key.
pub open spec fn has_entry(found: Option<JSahibON>, key: Seq<char>) -> bool {
    found matches Some(JSahibON::Object(object)) && exists|i: int|
        0 <= i < object@.len() && (#[trigger] object@[i]).0 == key
}

/// What the questions about keys ask: that the value is an object, and that it has an entry
/// of the key, of one of the keys, or of each of them.
pub proof fn questions_about_keys(
    root: Option<JSahibON>,
    path: JPath,
    key: String,
    keys: Vec<String>,
)
    ensures
        ({
            let found = crate::predicate::json_path::resolved(root, path@);
            &&& crate::predicate::jsahibon::body_holds(
                root,
                JSahibONPredicateBody::HasKey { path, key },
            ) <==> has_entry(found, key@)
            &&& crate::predicate::jsahibon::body_holds(
                root,
                JSahibONPredicateBody::HasAnyKey { path, keys },
            ) <==> exists|k: int| 0 <= k < keys@.len() && has_entry(found, (#[trigger] keys@[k])@)
            &&& crate::predicate::jsahibon::body_holds(
                root,
                JSahibONPredicateBody::HasAllKeys { path, keys },
            ) <==> (found matches Some(JSahibON::Object(_))) && forall|k: int|
                0 <= k < keys@.len() ==> has_entry(found, (#[trigger] keys@[k])@)
        }),
{
    let found = crate::predicate::json_path::resolved(root, path@);
    if let Some(JSahibON::Object(object)) = found {
        assert forall|k: Seq<char>| has_entry(found, k) == #[trigger]
            crate::predicate::jsahibon::object_has(object, k) by {}
        assert forall|k: int| 0 <= k < keys@.len() implies has_entry(found, (#[trigger] keys@[k])@)
            == crate::predicate::jsahibon::object_has(object, keys@[k]@) by {}
        if exists|k: int| 0 <= k < keys@.len() && has_entry(found, (#[trigger] keys@[k])@) {
            let k = choose|k: int| 0 <= k < keys@.len() && has_entry(found, (#[trigger] keys@[k])@);
            assert(crate::predicate::jsahibon::object_has(object, keys@[k]@));
        }
        if crate::predicate::jsahibon::has_one_of(object, keys@) {
            let k = choose|k: int|
                0 <= k < keys@.len() && crate::predicate::jsahibon::object_has(
                    object,
                    (#[trigger] keys@[k])@,
                );
            assert(has_entry(found, keys@[k]@));
        }
        if forall|k: int| 0 <= k < keys@.len() ==> has_entry(found, (#[trigger] keys@[k])@) {
            assert forall|k: int| 0 <= k < keys@.len() implies
                crate::predicate::jsahibon::object_has(object, (#[trigger] keys@[k])@) by {
                assert(has_entry(found, keys@[k]@));
            }
        }
    }
}

/// The scalar of a kind that a value is: the numeric kinds take every number, and the
/// others only their own.
pub open spec fn scalar_in(found: Option<JSahibON>, kind: JScalarKind) -> Option<JScalarValue> {
    match (found, kind) {
        (Some(JSahibON::String(s)), JScalarKind::String) => Some(JScalarValue::String(s)),
        (Some(JSahibON::Bool(b)), JScalarKind::Bool) => Some(JScalarValue::Bool(b)),
        (Some(JSahibON::I64(n)), JScalarKind::I64) => Some(JScalarValue::I64(n)),
        (Some(JSahibON::I64(n)), JScalarKind::U64) => Some(JScalarValue::I64(n)),
        (Some(JSahibON::I64(n)), JScalarKind::F64) => Some(JScalarValue::I64(n)),
        (Some(JSahibON::U64(n)), JScalarKind::I64) => Some(JScalarValue::U64(n)),
        (Some(JSahibON::U64(n)), JScalarKind::U64) => Some(JScalarValue::U64(n)),
        (Some(JSahibON::U64(n)), JScalarKind::F64) => Some(JScalarValue::U64(n)),
        (Some(JSahibON::F64(f)), JScalarKind::I64) => Some(JScalarValue::F64(f)),
        (Some(JSahibON::F64(f)), JScalarKind::U64) => Some(JScalarValue::F64(f)),
        (Some(JSahibON::F64(f)), JScalarKind::F64) => Some(JScalarValue::F64(f)),
        _ => None,
    }
}

/// What the questions about scalars ask. Where there is no scalar of the kind, none passes.
pub proof fn questions_about_scalars(
    root: Option<JSahibON>,
    path: JPath,
    op: JCompareOp,
    scalar_kind: JScalarKind,
    operand: JScalarValue,
    low: JScalarValue,
    high: JScalarValue,
)
    ensures
        ({
            let found = scalar_in(
                crate::predicate::json_path::resolved(root, path@),
                scalar_kind,
            );
            &&& crate::predicate::jsahibon::body_holds(
                root,
                JSahibONPredicateBody::ScalarCompare { path, op, scalar_kind, operand },
            ) <==> (found matches Some(left) && crate::predicate::jsahibon::scalar_meets(
                op,
                left,
                operand,
            ))
            &&& crate::predicate::jsahibon::body_holds(
                root,
                JSahibONPredicateBody::ScalarBetween { path, scalar_kind, low, high },
            ) <==> (found matches Some(left) && crate::predicate::jsahibon::scalar_meets(
                JCompareOp::Gte,
                left,
                low,
            ) && crate::predicate::jsahibon::scalar_meets(JCompareOp::Lte, left, high))
        }),
{
}

/// A scalar passes a list where it equals one of it, and the opposite question where it
/// equals none; without a scalar of the kind neither passes.
pub proof fn questions_about_lists(
    root: Option<JSahibON>,
    path: JPath,
    scalar_kind: JScalarKind,
    operands: Vec<JScalarValue>,
)
    ensures
        ({
            let found = scalar_in(
                crate::predicate::json_path::resolved(root, path@),
                scalar_kind,
            );
            let listed = found matches Some(left) && exists|i: int|
                0 <= i < operands@.len() && crate::predicate::jsahibon::scalar_meets(
                    JCompareOp::Eq,
                    left,
                    #[trigger] operands@[i],
                );
            let unlisted = found matches Some(left) && forall|i: int|
                0 <= i < operands@.len() ==> !crate::predicate::jsahibon::scalar_meets(
                    JCompareOp::Eq,
                    left,
                    #[trigger] operands@[i],
                );
            &&& crate::predicate::jsahibon::body_holds(
                root,
                JSahibONPredicateBody::ScalarIn {
                    path,
                    scalar_kind,
                    operands,
                    polarity: JInPolarity::In,
                },
            ) <==> listed
            &&& crate::predicate::jsahibon::body_holds(
                root,
                JSahibONPredicateBody::ScalarIn {
                    path,
                    scalar_kind,
                    operands,
                    polarity: JInPolarity::NotIn,
                },
            ) <==> unlisted
        }),
{
    let found = scalar_in(crate::predicate::json_path::resolved(root, path@), scalar_kind);
    if let Some(left) = found {
        if crate::predicate::jsahibon::is_listed(left, operands@) {
            let i = choose|i: int|
                0 <= i < operands@.len() && crate::predicate::jsahibon::scalar_eq(
                    left,
                    #[trigger] operands@[i],
                );
            assert(crate::predicate::jsahibon::scalar_meets(JCompareOp::Eq, left, operands@[i]));
        }
        if exists|i: int|
            0 <= i < operands@.len() && crate::predicate::jsahibon::scalar_meets(
                JCompareOp::Eq,
                left,
                #[trigger] operands@[i],
            ) {
            let i = choose|i: int|
                0 <= i < operands@.len() && crate::predicate::jsahibon::scalar_meets(
                    JCompareOp::Eq,
                    left,
                    #[trigger] operands@[i],
                );
            assert(crate::predicate::jsahibon::scalar_eq(left, operands@[i]));
        }
    }
}

/// What the questions about whole values and arrays ask.
pub proof fn questions_about_values_and_arrays(
    root: Option<JSahibON>,
    path: JPath,
    value: JSahibON,
    op: JCompareOp,
    len: u64,
)
    ensures
        ({
            let found = crate::predicate::json_path::resolved(root, path@);
            &&& crate::predicate::jsahibon::body_holds(
                root,
                JSahibONPredicateBody::JsonEq { path, value },
            ) <==> (found matches Some(left) && crate::jsahibon::json_eq(left, value))
            &&& crate::predicate::jsahibon::body_holds(
                root,
                JSahibONPredicateBody::JsonNeq { path, value },
            ) <==> (found matches Some(left) && !crate::jsahibon::json_eq(left, value))
            &&& crate::predicate::jsahibon::body_holds(
                root,
                JSahibONPredicateBody::ArrayContains { path, element: value },
            ) <==> (found matches Some(JSahibON::Array(items)) && exists|i: int|
                0 <= i < items@.len() && crate::jsahibon::json_eq(#[trigger] items@[i], value))
            &&& crate::predicate::jsahibon::body_holds(
                root,
                JSahibONPredicateBody::ArrayLen { path, op, len },
            ) <==> (found matches Some(JSahibON::Array(items)) && match op {
                JCompareOp::Eq => items@.len() == len,
                JCompareOp::Neq => items@.len() != len,
                JCompareOp::Gt => items@.len() > len,
                JCompareOp::Gte => items@.len() >= len,
                JCompareOp::Lt => items@.len() < len,
                JCompareOp::Lte => items@.len() <= len,
            })
        }),
{
}

/// Operands of each type have its kind and are what was given.
pub proof fn operands_have_their_kinds(n: i64, u: u64, f: JFiniteF64, s: String, b: bool)
    ensures
        <i64 as crate::predicate::jsahibon::JScalar>::spec_kind() == JScalarKind::I64,
        <u64 as crate::predicate::jsahibon::JScalar>::spec_kind() == JScalarKind::U64,
        <JFiniteF64 as crate::predicate::jsahibon::JScalar>::spec_kind() == JScalarKind::F64,
        <String as crate::predicate::jsahibon::JScalar>::spec_kind() == JScalarKind::String,
        <bool as crate::predicate::jsahibon::JScalar>::spec_kind() == JScalarKind::Bool,
        crate::predicate::jsahibon::JScalar::spec_scalar(n) == JScalarValue::I64(n),
        crate::predicate::jsahibon::JScalar::spec_scalar(u) == JScalarValue::U64(u),
        crate::predicate::jsahibon::JScalar::spec_scalar(f) == JScalarValue::F64(f),
        crate::predicate::jsahibon::JScalar::spec_scalar(s) == JScalarValue::String(s),
        crate::predicate::jsahibon::JScalar::spec_scalar(b) == JScalarValue::Bool(b),
{
}

} // verus!
