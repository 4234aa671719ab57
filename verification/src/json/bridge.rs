//! Parsed JSON documents and the values that they become.

use vstd::prelude::*;
use crate::jsahibon::{JObject, JSahibON, JSahibONError};

verus! {

/// A parsed JSON document, its numbers as a parser reports them.
pub enum JsonTree {
    /// Null.
    Null,
    /// A truth value.
    Bool(bool),
    /// A number, by what it is read as: a signed integer, an unsigned one or
    /// the bits of a binary64 number, each where it fits.
    Number {
        /// The number as a signed integer.
        as_i64: Option<i64>,
        /// The number as an unsigned integer.
        as_u64: Option<u64>,
        /// The bits of the number as a binary64 number.
        as_f64: Option<u64>,
        /// The digits of the number.
        text: String,
    },
    /// A string.
    String(String),
    /// An array.
    Array(Vec<JsonTree>),
    /// An object.
    Object(Vec<(String, JsonTree)>),
}

/// `e` says what keeps the number out.
pub open spec fn number_error(as_f64: Option<u64>, text: Seq<char>, e: JSahibONError) -> bool {
    match as_f64 {
        Some(bits) => e is NonFiniteF64,
        None => e matches JSahibONError::NumberOutOfRange(t) && t@ == text,
    }
}

/// The document has a value: each of its numbers fits into a numeric variant.
pub open spec fn convertible(tree: JsonTree) -> bool
    decreases tree,
{
    match tree {
        JsonTree::Number { as_i64, as_u64, as_f64, text } => as_i64 is Some || as_u64 is Some || (
        as_f64 matches Some(bits) && crate::json::binary64::finite(bits)),
        JsonTree::Array(items) => forall|i: int|
            0 <= i < items@.len() ==> convertible(#[trigger] items@[i]),
        JsonTree::Object(entries) => forall|i: int|
            0 <= i < entries@.len() ==> convertible((#[trigger] entries@[i]).1),
        _ => true,
    }
}

/// `value` is the value of the document. A number is the first of a signed
/// integer, an unsigned integer and a binary64 number that it is read as.
pub open spec fn represents(tree: JsonTree, value: JSahibON) -> bool
    decreases tree,
{
    match tree {
        JsonTree::Null => value is Null,
        JsonTree::Bool(b) => value == JSahibON::Bool(b),
        JsonTree::Number { as_i64, as_u64, as_f64, text } => match (as_i64, as_u64, as_f64) {
            (Some(n), _, _) => value == JSahibON::I64(n),
            (None, Some(n), _) => value == JSahibON::U64(n),
            (None, None, Some(bits)) => value matches JSahibON::F64(f) && f.spec_bits() == bits,
            (None, None, None) => false,
        },
        JsonTree::String(s) => value matches JSahibON::String(t) && t@ == s@,
        JsonTree::Array(items) => value matches JSahibON::Array(values) && {
            &&& values@.len() == items@.len()
            &&& forall|i: int| 0 <= i < items@.len()
                ==> represents(#[trigger] items@[i], values@[i])
        },
        JsonTree::Object(entries) => value matches JSahibON::Object(object) && exists|
            pairs: Seq<(String, JSahibON)>,
        |
            {
                &&& #[trigger] crate::jsahibon::bound_all(pairs) == object@
                &&& pairs.len() == entries@.len()
                &&& forall|i: int|
                    0 <= i < entries@.len() ==> pairs[i].0@ == entries@[i].0@ && represents(
                        (#[trigger] entries@[i]).1,
                        pairs[i].1,
                    )
            },
    }
}

/// `e` is the error of the first number, in document order, that does not fit.
pub open spec fn first_error(tree: JsonTree, e: JSahibONError) -> bool
    decreases tree,
{
    match tree {
        JsonTree::Number { as_i64, as_u64, as_f64, text } => number_error(as_f64, text@, e),
        JsonTree::Array(items) => exists|i: int|
            {
                &&& 0 <= i < items@.len()
                &&& first_error(#[trigger] items@[i], e)
                &&& !convertible(items@[i])
                &&& forall|j: int| 0 <= j < i ==> convertible(#[trigger] items@[j])
            },
        JsonTree::Object(entries) => exists|i: int|
            {
                &&& 0 <= i < entries@.len()
                &&& first_error((#[trigger] entries@[i]).1, e)
                &&& !convertible(entries@[i].1)
                &&& forall|j: int| 0 <= j < i ==> convertible((#[trigger] entries@[j]).1)
            },
        _ => false,
    }
}

impl JSahibON {
    /// Makes the value of a parsed document.
    pub fn from_tree(tree: &JsonTree) -> (r: Result<JSahibON, JSahibONError>)
        ensures
            match r {
                Ok(value) => convertible(*tree) && represents(*tree, value),
                Err(e) => !convertible(*tree) && first_error(*tree, e),
            },
        decreases tree,
    {
        match tree {
            JsonTree::Null => Ok(JSahibON::Null),
            JsonTree::Bool(b) => Ok(JSahibON::Bool(*b)),
            JsonTree::Number { as_i64, as_u64, as_f64, text } => {
                if let Some(n) = as_i64 {
                    Ok(JSahibON::I64(*n))
                } else if let Some(n) = as_u64 {
                    Ok(JSahibON::U64(*n))
                } else if let Some(bits) = as_f64 {
                    JSahibON::try_f64(*bits)
                } else {
                    Err(JSahibONError::NumberOutOfRange(text.clone()))
                }
            },
            JsonTree::String(s) => Ok(JSahibON::String(s.clone())),
            JsonTree::Array(items) => Self::from_items(items),
            JsonTree::Object(entries) => Self::from_pairs(entries),
        }
    }

    fn from_items(items: &Vec<JsonTree>) -> (r: Result<JSahibON, JSahibONError>)
        ensures
            match r {
                Ok(value) => {
                    &&& forall|i: int| 0 <= i < items@.len() ==> convertible(#[trigger] items@[i])
                    &&& value matches JSahibON::Array(values) && {
                        &&& values@.len() == items@.len()
                        &&& forall|i: int|
                            0 <= i < items@.len() ==> represents(#[trigger] items@[i], values@[i])
                    }
                },
                Err(e) => exists|i: int|
                    {
                        &&& 0 <= i < items@.len()
                        &&& first_error(#[trigger] items@[i], e)
                        &&& !convertible(items@[i])
                        &&& forall|j: int| 0 <= j < i ==> convertible(#[trigger] items@[j])
                    },
            },
        decreases items,
    {
        let mut values: Vec<JSahibON> = Vec::new();
        let mut i: usize = 0;
        while i < items.len()
            invariant
                i <= items@.len(),
                values@.len() == i,
                forall|j: int| 0 <= j < i ==> convertible(#[trigger] items@[j]),
                forall|j: int| 0 <= j < i ==> represents(#[trigger] items@[j], values@[j]),
            decreases items@.len() - i,
        {
            assert(decreases_to!(*items => items[i as int]));
            match Self::from_tree(&items[i]) {
                Ok(value) => values.push(value),
                Err(e) => {
                    assert(first_error(items@[i as int], e));
                    return Err(e);
                },
            }
            i += 1;
        }
        Ok(JSahibON::Array(values))
    }

    fn from_pairs(entries: &Vec<(String, JsonTree)>) -> (r: Result<JSahibON, JSahibONError>)
        ensures
            match r {
                Ok(value) => {
                    &&& forall|i: int|
                        0 <= i < entries@.len() ==> convertible((#[trigger] entries@[i]).1)
                    &&& value matches JSahibON::Object(object) && exists|
                        pairs: Seq<(String, JSahibON)>,
                    |
                        {
                            &&& #[trigger] crate::jsahibon::bound_all(pairs) == object@
                            &&& pairs.len() == entries@.len()
                            &&& forall|i: int|
                                0 <= i < entries@.len() ==> pairs[i].0@ == entries@[i].0@
                                    && represents((#[trigger] entries@[i]).1, pairs[i].1)
                        }
                },
                Err(e) => exists|i: int|
                    {
                        &&& 0 <= i < entries@.len()
                        &&& first_error((#[trigger] entries@[i]).1, e)
                        &&& !convertible(entries@[i].1)
                        &&& forall|j: int| 0 <= j < i ==> convertible((#[trigger] entries@[j]).1)
                    },
            },
        decreases entries,
    {
        let mut pairs: Vec<(String, JSahibON)> = Vec::new();
        let mut i: usize = 0;
        while i < entries.len()
            invariant
                i <= entries@.len(),
                pairs@.len() == i,
                forall|j: int| 0 <= j < i ==> convertible((#[trigger] entries@[j]).1),
                forall|j: int|
                    0 <= j < i ==> pairs@[j].0@ == entries@[j].0@ && represents(
                        (#[trigger] entries@[j]).1,
                        pairs@[j].1,
                    ),
            decreases entries@.len() - i,
        {
            let entry = &entries[i];
            assert(decreases_to!(*entries => entries[i as int]));
            assert(decreases_to!(entries[i as int] => entries[i as int].1));
            match Self::from_tree(&entry.1) {
                Ok(value) => pairs.push((entry.0.clone(), value)),
                Err(e) => {
                    assert(first_error(entries@[i as int].1, e));
                    return Err(e);
                },
            }
            i += 1;
        }
        let ghost taken = pairs@;
        let object = JObject::from_entries(pairs);
        assert(crate::jsahibon::bound_all(taken) == object@);
        Ok(JSahibON::Object(object))
    }
}

/// What a parsed number becomes: a signed integer where it is read as one, else an unsigned
/// one, else a float with the bits that were read; a document is refused for its numbers
/// alone.
pub proof fn parsed_numbers_keep_their_value(
    as_i64: Option<i64>,
    as_u64: Option<u64>,
    as_f64: Option<u64>,
    text: String,
    value: JSahibON,
)
    ensures
        ({
            let tree = JsonTree::Number { as_i64, as_u64, as_f64, text };
            &&& as_i64 matches Some(n) ==> convertible(tree) && (represents(tree, value) <==> value
                == JSahibON::I64(n))
            &&& as_i64 is None && (as_u64 matches Some(n)) ==> convertible(tree) && (represents(
                tree,
                value,
            ) <==> value == JSahibON::U64(as_u64->Some_0))
            &&& as_i64 is None && as_u64 is None && (as_f64 matches Some(bits)) ==> (convertible(tree)
                <==> crate::json::binary64::finite(as_f64->Some_0)) && (represents(tree, value)
                <==> (value matches JSahibON::F64(f) && f.spec_bits() == as_f64->Some_0))
            &&& as_i64 is None && as_u64 is None && as_f64 is None ==> !convertible(tree)
        }),
{
}

/// Arrays keep their items in place, texts and truth values what they are.
pub proof fn parsed_values_keep_their_shape(
    items: Vec<JsonTree>,
    s: String,
    b: bool,
    value: JSahibON,
)
    ensures
        represents(JsonTree::Null, value) <==> value == JSahibON::Null,
        represents(JsonTree::Bool(b), value) <==> value == JSahibON::Bool(b),
        represents(JsonTree::String(s), value) <==> (value matches JSahibON::String(t) && t@ == s@),
        represents(JsonTree::Array(items), value) ==> (value matches JSahibON::Array(values)
            && values@.len() == items@.len() && forall|i: int|
            0 <= i < items@.len() ==> represents(#[trigger] items@[i], values@[i])),
        (forall|i: int| 0 <= i < items@.len() ==> convertible(#[trigger] items@[i])) ==> convertible(
            JsonTree::Array(items),
        ),
{
}

} // verus!
