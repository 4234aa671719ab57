//! Values that fields are compared with.

use vstd::prelude::*;
use crate::jsahibon::{JFiniteF64, JSahibON};
use crate::json::binary64::{order_floats, NumberOrder};
use crate::predicate::operand::FieldValue;
use crate::text::{same_text, text_codes};

verus! {

/// A value that can be told to be equal to another.
pub trait FieldEq: FieldValue {
    /// Whether the values are equal. An implementation says when.
    open spec fn equals(&self, other: Self) -> bool {
        arbitrary()
    }

    /// Tells whether the values are equal.
    fn same_value(&self, other: &Self) -> (r: bool)
        ensures
            r == self.equals(*other),
    ;
}

/// A value that can be ordered against another.
pub trait FieldOrd: FieldValue {
    /// How the value compares with another; `None` where it does not. An implementation
    /// says how.
    open spec fn order(&self, other: Self) -> Option<NumberOrder> {
        arbitrary()
    }

    /// Compares the value with another.
    fn compare(&self, other: &Self) -> (r: Option<NumberOrder>)
        ensures
            r == self.order(*other),
    ;
}

/// How two integers compare.
pub open spec fn integer_order(a: int, b: int) -> Option<NumberOrder> {
    Some(crate::json::binary64::order_of(a, b))
}

impl FieldEq for i8 {
    open spec fn equals(&self, other: Self) -> bool {
        *self == other
    }

    fn same_value(&self, other: &Self) -> (r: bool) {
        *self == *other
    }
}

impl FieldOrd for i8 {
    open spec fn order(&self, other: Self) -> Option<NumberOrder> {
        integer_order(*self as int, other as int)
    }

    fn compare(&self, other: &Self) -> (r: Option<NumberOrder>) {
        Some(if *self < *other {
            NumberOrder::Less
        } else if *self == *other {
            NumberOrder::Equal
        } else {
            NumberOrder::Greater
        })
    }
}

impl FieldEq for i16 {
    open spec fn equals(&self, other: Self) -> bool {
        *self == other
    }

    fn same_value(&self, other: &Self) -> (r: bool) {
        *self == *other
    }
}

impl FieldOrd for i16 {
    open spec fn order(&self, other: Self) -> Option<NumberOrder> {
        integer_order(*self as int, other as int)
    }

    fn compare(&self, other: &Self) -> (r: Option<NumberOrder>) {
        Some(if *self < *other {
            NumberOrder::Less
        } else if *self == *other {
            NumberOrder::Equal
        } else {
            NumberOrder::Greater
        })
    }
}

impl FieldEq for i32 {
    open spec fn equals(&self, other: Self) -> bool {
        *self == other
    }

    fn same_value(&self, other: &Self) -> (r: bool) {
        *self == *other
    }
}

impl FieldOrd for i32 {
    open spec fn order(&self, other: Self) -> Option<NumberOrder> {
        integer_order(*self as int, other as int)
    }

    fn compare(&self, other: &Self) -> (r: Option<NumberOrder>) {
        Some(if *self < *other {
            NumberOrder::Less
        } else if *self == *other {
            NumberOrder::Equal
        } else {
            NumberOrder::Greater
        })
    }
}

impl FieldEq for i64 {
    open spec fn equals(&self, other: Self) -> bool {
        *self == other
    }

    fn same_value(&self, other: &Self) -> (r: bool) {
        *self == *other
    }
}

impl FieldOrd for i64 {
    open spec fn order(&self, other: Self) -> Option<NumberOrder> {
        integer_order(*self as int, other as int)
    }

    fn compare(&self, other: &Self) -> (r: Option<NumberOrder>) {
        Some(if *self < *other {
            NumberOrder::Less
        } else if *self == *other {
            NumberOrder::Equal
        } else {
            NumberOrder::Greater
        })
    }
}

impl FieldEq for i128 {
    open spec fn equals(&self, other: Self) -> bool {
        *self == other
    }

    fn same_value(&self, other: &Self) -> (r: bool) {
        *self == *other
    }
}

impl FieldOrd for i128 {
    open spec fn order(&self, other: Self) -> Option<NumberOrder> {
        integer_order(*self as int, other as int)
    }

    fn compare(&self, other: &Self) -> (r: Option<NumberOrder>) {
        Some(if *self < *other {
            NumberOrder::Less
        } else if *self == *other {
            NumberOrder::Equal
        } else {
            NumberOrder::Greater
        })
    }
}

impl FieldEq for isize {
    open spec fn equals(&self, other: Self) -> bool {
        *self == other
    }

    fn same_value(&self, other: &Self) -> (r: bool) {
        *self == *other
    }
}

impl FieldOrd for isize {
    open spec fn order(&self, other: Self) -> Option<NumberOrder> {
        integer_order(*self as int, other as int)
    }

    fn compare(&self, other: &Self) -> (r: Option<NumberOrder>) {
        Some(if *self < *other {
            NumberOrder::Less
        } else if *self == *other {
            NumberOrder::Equal
        } else {
            NumberOrder::Greater
        })
    }
}

impl FieldEq for u8 {
    open spec fn equals(&self, other: Self) -> bool {
        *self == other
    }

    fn same_value(&self, other: &Self) -> (r: bool) {
        *self == *other
    }
}

impl FieldOrd for u8 {
    open spec fn order(&self, other: Self) -> Option<NumberOrder> {
        integer_order(*self as int, other as int)
    }

    fn compare(&self, other: &Self) -> (r: Option<NumberOrder>) {
        Some(if *self < *other {
            NumberOrder::Less
        } else if *self == *other {
            NumberOrder::Equal
        } else {
            NumberOrder::Greater
        })
    }
}

impl FieldEq for u16 {
    open spec fn equals(&self, other: Self) -> bool {
        *self == other
    }

    fn same_value(&self, other: &Self) -> (r: bool) {
        *self == *other
    }
}

impl FieldOrd for u16 {
    open spec fn order(&self, other: Self) -> Option<NumberOrder> {
        integer_order(*self as int, other as int)
    }

    fn compare(&self, other: &Self) -> (r: Option<NumberOrder>) {
        Some(if *self < *other {
            NumberOrder::Less
        } else if *self == *other {
            NumberOrder::Equal
        } else {
            NumberOrder::Greater
        })
    }
}

impl FieldEq for u32 {
    open spec fn equals(&self, other: Self) -> bool {
        *self == other
    }

    fn same_value(&self, other: &Self) -> (r: bool) {
        *self == *other
    }
}

impl FieldOrd for u32 {
    open spec fn order(&self, other: Self) -> Option<NumberOrder> {
        integer_order(*self as int, other as int)
    }

    fn compare(&self, other: &Self) -> (r: Option<NumberOrder>) {
        Some(if *self < *other {
            NumberOrder::Less
        } else if *self == *other {
            NumberOrder::Equal
        } else {
            NumberOrder::Greater
        })
    }
}

impl FieldEq for u64 {
    open spec fn equals(&self, other: Self) -> bool {
        *self == other
    }

    fn same_value(&self, other: &Self) -> (r: bool) {
        *self == *other
    }
}

impl FieldOrd for u64 {
    open spec fn order(&self, other: Self) -> Option<NumberOrder> {
        integer_order(*self as int, other as int)
    }

    fn compare(&self, other: &Self) -> (r: Option<NumberOrder>) {
        Some(if *self < *other {
            NumberOrder::Less
        } else if *self == *other {
            NumberOrder::Equal
        } else {
            NumberOrder::Greater
        })
    }
}

impl FieldEq for u128 {
    open spec fn equals(&self, other: Self) -> bool {
        *self == other
    }

    fn same_value(&self, other: &Self) -> (r: bool) {
        *self == *other
    }
}

impl FieldOrd for u128 {
    open spec fn order(&self, other: Self) -> Option<NumberOrder> {
        integer_order(*self as int, other as int)
    }

    fn compare(&self, other: &Self) -> (r: Option<NumberOrder>) {
        Some(if *self < *other {
            NumberOrder::Less
        } else if *self == *other {
            NumberOrder::Equal
        } else {
            NumberOrder::Greater
        })
    }
}

impl FieldEq for usize {
    open spec fn equals(&self, other: Self) -> bool {
        *self == other
    }

    fn same_value(&self, other: &Self) -> (r: bool) {
        *self == *other
    }
}

impl FieldOrd for usize {
    open spec fn order(&self, other: Self) -> Option<NumberOrder> {
        integer_order(*self as int, other as int)
    }

    fn compare(&self, other: &Self) -> (r: Option<NumberOrder>) {
        Some(if *self < *other {
            NumberOrder::Less
        } else if *self == *other {
            NumberOrder::Equal
        } else {
            NumberOrder::Greater
        })
    }
}

impl FieldEq for bool {
    open spec fn equals(&self, other: Self) -> bool {
        *self == other
    }

    fn same_value(&self, other: &Self) -> (r: bool) {
        *self == *other
    }
}

impl FieldEq for char {
    open spec fn equals(&self, other: Self) -> bool {
        *self == other
    }

    fn same_value(&self, other: &Self) -> (r: bool) {
        *self == *other
    }
}

impl FieldOrd for char {
    open spec fn order(&self, other: Self) -> Option<NumberOrder> {
        integer_order(*self as int, other as int)
    }

    fn compare(&self, other: &Self) -> (r: Option<NumberOrder>) {
        Some(if *self < *other {
            NumberOrder::Less
        } else if *self == *other {
            NumberOrder::Equal
        } else {
            NumberOrder::Greater
        })
    }
}

impl FieldEq for String {
    open spec fn equals(&self, other: Self) -> bool {
        self@ == other@
    }

    fn same_value(&self, other: &Self) -> (r: bool) {
        same_text(self.as_str(), other.as_str())
    }
}

impl FieldOrd for bool {
    open spec fn order(&self, other: Self) -> Option<NumberOrder> {
        if *self == other {
            Some(NumberOrder::Equal)
        } else if other {
            Some(NumberOrder::Less)
        } else {
            Some(NumberOrder::Greater)
        }
    }

    fn compare(&self, other: &Self) -> (r: Option<NumberOrder>) {
        if *self == *other {
            Some(NumberOrder::Equal)
        } else if *other {
            Some(NumberOrder::Less)
        } else {
            Some(NumberOrder::Greater)
        }
    }
}

/// The order of two texts by the codes of their characters, first to last.
pub open spec fn text_order(a: Seq<u32>, b: Seq<u32>) -> NumberOrder
    decreases a.len(),
{
    if a.len() == 0 && b.len() == 0 {
        NumberOrder::Equal
    } else if a.len() == 0 {
        NumberOrder::Less
    } else if b.len() == 0 {
        NumberOrder::Greater
    } else if a[0] < b[0] {
        NumberOrder::Less
    } else if a[0] > b[0] {
        NumberOrder::Greater
    } else {
        text_order(a.drop_first(), b.drop_first())
    }
}

impl FieldOrd for String {
    open spec fn order(&self, other: Self) -> Option<NumberOrder> {
        Some(text_order(crate::text::codes(self@, false), crate::text::codes(other@, false)))
    }

    fn compare(&self, other: &Self) -> (r: Option<NumberOrder>) {
        let a = text_codes(self.as_str(), false);
        let b = text_codes(other.as_str(), false);
        let mut i: usize = 0;
        assert(a@.skip(0) =~= a@ && b@.skip(0) =~= b@);
        while i < a.len() && i < b.len()
            invariant
                i <= a@.len(),
                i <= b@.len(),
                a@ == crate::text::codes(self@, false),
                b@ == crate::text::codes(other@, false),
                text_order(a@, b@) == text_order(a@.skip(i as int), b@.skip(i as int)),
            decreases a@.len() - i,
        {
            assert(a@.skip(i as int).drop_first() =~= a@.skip(i + 1));
            assert(b@.skip(i as int).drop_first() =~= b@.skip(i + 1));
            if a[i] < b[i] {
                return Some(NumberOrder::Less);
            }
            if a[i] > b[i] {
                return Some(NumberOrder::Greater);
            }
            i += 1;
        }
        if i < b.len() {
            Some(NumberOrder::Less)
        } else if i < a.len() {
            Some(NumberOrder::Greater)
        } else {
            Some(NumberOrder::Equal)
        }
    }
}

impl FieldEq for JFiniteF64 {
    open spec fn equals(&self, other: Self) -> bool {
        self.units() == other.units()
    }

    fn same_value(&self, other: &Self) -> (r: bool) {
        order_floats(self.get(), other.get()) == NumberOrder::Equal
    }
}

impl FieldOrd for JFiniteF64 {
    open spec fn order(&self, other: Self) -> Option<NumberOrder> {
        Some(crate::json::binary64::order_of(self.units(), other.units()))
    }

    fn compare(&self, other: &Self) -> (r: Option<NumberOrder>) {
        Some(order_floats(self.get(), other.get()))
    }
}

impl FieldEq for JSahibON {
    open spec fn equals(&self, other: Self) -> bool {
        crate::jsahibon::json_eq(*self, other)
    }

    fn same_value(&self, other: &Self) -> (r: bool) {
        self.same(other)
    }
}

impl<V: FieldEq> FieldEq for Option<V> {
    open spec fn equals(&self, other: Self) -> bool {
        match (self, other) {
            (Some(a), Some(b)) => a.equals(b),
            (None, None) => true,
            _ => false,
        }
    }

    fn same_value(&self, other: &Self) -> (r: bool) {
        match (self, other) {
            (Some(a), Some(b)) => a.same_value(b),
            (None, None) => true,
            _ => false,
        }
    }
}

/// The order of an optional value: an absent one comes first.
impl<V: FieldOrd> FieldOrd for Option<V> {
    open spec fn order(&self, other: Self) -> Option<NumberOrder> {
        match (self, other) {
            (Some(a), Some(b)) => a.order(b),
            (None, None) => Some(NumberOrder::Equal),
            (None, Some(_)) => Some(NumberOrder::Less),
            (Some(_), None) => Some(NumberOrder::Greater),
        }
    }

    fn compare(&self, other: &Self) -> (r: Option<NumberOrder>) {
        match (self, other) {
            (Some(a), Some(b)) => a.compare(b),
            (None, None) => Some(NumberOrder::Equal),
            (None, Some(_)) => Some(NumberOrder::Less),
            (Some(_), None) => Some(NumberOrder::Greater),
        }
    }
}

impl<A: FieldEq, B: FieldEq> FieldEq for (A, B) {
    open spec fn equals(&self, other: Self) -> bool {
        self.0.equals(other.0) && self.1.equals(other.1)
    }

    fn same_value(&self, other: &Self) -> (r: bool) {
        self.0.same_value(&other.0) && self.1.same_value(&other.1)
    }
}

/// The order of two values: the second ones decide where the first ones tie.
impl<A: FieldOrd, B: FieldOrd> FieldOrd for (A, B) {
    open spec fn order(&self, other: Self) -> Option<NumberOrder> {
        match self.0.order(other.0) {
            Some(NumberOrder::Equal) => self.1.order(other.1),
            first => first,
        }
    }

    fn compare(&self, other: &Self) -> (r: Option<NumberOrder>) {
        match self.0.compare(&other.0) {
            Some(NumberOrder::Equal) => self.1.compare(&other.1),
            first => first,
        }
    }
}

} // verus!
