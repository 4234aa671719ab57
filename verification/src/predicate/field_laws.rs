//! What holds of every comparison with a field.

use vstd::prelude::*;
use crate::jsahibon::JFiniteF64;
use crate::json::binary64::NumberOrder;
use crate::predicate::field_predicate::LookupOp;
use crate::predicate::field_value::{FieldEq, FieldOrd};
use crate::predicate::query_key::QueryKey;

verus! {

/// `order` is how `a` compares with `b`.
pub open spec fn orders(order: Option<NumberOrder>, a: int, b: int) -> bool {
    &&& order is Some
    &&& order == Some(NumberOrder::Less) <==> a < b
    &&& order == Some(NumberOrder::Equal) <==> a == b
    &&& order == Some(NumberOrder::Greater) <==> a > b
}

/// Signed integers compare and are equal by value.
pub proof fn signed_integers_compare_by_value()
    ensures
        forall|a: i8, b: i8| orders(#[trigger] a.order(b), a as int, b as int),
        forall|a: i16, b: i16| orders(#[trigger] a.order(b), a as int, b as int),
        forall|a: i32, b: i32| orders(#[trigger] a.order(b), a as int, b as int),
        forall|a: i64, b: i64| orders(#[trigger] a.order(b), a as int, b as int),
        forall|a: i128, b: i128| orders(#[trigger] a.order(b), a as int, b as int),
        forall|a: isize, b: isize| orders(#[trigger] a.order(b), a as int, b as int),
        forall|a: i8, b: i8| #[trigger] a.equals(b) <==> a as int == b as int,
        forall|a: i16, b: i16| #[trigger] a.equals(b) <==> a as int == b as int,
        forall|a: i32, b: i32| #[trigger] a.equals(b) <==> a as int == b as int,
        forall|a: i64, b: i64| #[trigger] a.equals(b) <==> a as int == b as int,
        forall|a: i128, b: i128| #[trigger] a.equals(b) <==> a as int == b as int,
        forall|a: isize, b: isize| #[trigger] a.equals(b) <==> a as int == b as int,
{
}

/// Unsigned integers compare and are equal by value.
pub proof fn unsigned_integers_compare_by_value()
    ensures
        forall|a: u8, b: u8| orders(#[trigger] a.order(b), a as int, b as int),
        forall|a: u16, b: u16| orders(#[trigger] a.order(b), a as int, b as int),
        forall|a: u32, b: u32| orders(#[trigger] a.order(b), a as int, b as int),
        forall|a: u64, b: u64| orders(#[trigger] a.order(b), a as int, b as int),
        forall|a: u128, b: u128| orders(#[trigger] a.order(b), a as int, b as int),
        forall|a: usize, b: usize| orders(#[trigger] a.order(b), a as int, b as int),
        forall|a: u8, b: u8| #[trigger] a.equals(b) <==> a as int == b as int,
        forall|a: u16, b: u16| #[trigger] a.equals(b) <==> a as int == b as int,
        forall|a: u32, b: u32| #[trigger] a.equals(b) <==> a as int == b as int,
        forall|a: u64, b: u64| #[trigger] a.equals(b) <==> a as int == b as int,
        forall|a: u128, b: u128| #[trigger] a.equals(b) <==> a as int == b as int,
        forall|a: usize, b: usize| #[trigger] a.equals(b) <==> a as int == b as int,
{
}

/// Characters compare by their codes, truth values with the false one first, and finite
/// numbers by their values.
pub proof fn other_values_compare_by_value(
    c: char,
    d: char,
    p: bool,
    q: bool,
    f: JFiniteF64,
    g: JFiniteF64,
)
    ensures
        orders(c.order(d), c as int, d as int),
        c.equals(d) <==> c == d,
        orders(
            p.order(q),
            if p {
                1int
            } else {
                0
            },
            if q {
                1int
            } else {
                0
            },
        ),
        p.equals(q) <==> p == q,
        orders(f.order(g), f.units(), g.units()),
        f.equals(g) <==> f.units() == g.units(),
{
}

/// An absent value comes before every present one; two present ones compare as they do
/// without that.
pub proof fn absent_values_come_first<V: FieldOrd + FieldEq>(a: V, b: V)
    ensures
        None::<V>.order(None::<V>) == Some(NumberOrder::Equal),
        None::<V>.order(Some(b)) == Some(NumberOrder::Less),
        Some(a).order(None::<V>) == Some(NumberOrder::Greater),
        Some(a).order(Some(b)) == a.order(b),
        None::<V>.equals(None::<V>),
        !None::<V>.equals(Some(b)),
        !Some(a).equals(None::<V>),
        Some(a).equals(Some(b)) == a.equals(b),
{
}

/// Pairs compare by their first values, and where these tie, by the second ones.
pub proof fn first_values_decide<A: FieldOrd + FieldEq, B: FieldOrd + FieldEq>(
    a: (A, B),
    b: (A, B),
)
    ensures
        a.0.order(b.0) == Some(NumberOrder::Equal) ==> a.order(b) == a.1.order(b.1),
        a.0.order(b.0) != Some(NumberOrder::Equal) ==> a.order(b) == a.0.order(b.0),
        a.equals(b) <==> a.0.equals(b.0) && a.1.equals(b.1),
{
}

/// What each comparison asks of an order. A value that does not compare passes none.
pub proof fn comparisons_ask_for_their_order(a: int, b: int, order: Option<NumberOrder>)
    ensures
        orders(order, a, b) ==> {
            &&& crate::predicate::field_ext::order_meets(LookupOp::Gt, order) <==> a > b
            &&& crate::predicate::field_ext::order_meets(LookupOp::Gte, order) <==> a >= b
            &&& crate::predicate::field_ext::order_meets(LookupOp::Lt, order) <==> a < b
            &&& crate::predicate::field_ext::order_meets(LookupOp::Lte, order) <==> a <= b
        },
        order is None ==> {
            &&& !crate::predicate::field_ext::order_meets(LookupOp::Gt, order)
            &&& !crate::predicate::field_ext::order_meets(LookupOp::Gte, order)
            &&& !crate::predicate::field_ext::order_meets(LookupOp::Lt, order)
            &&& !crate::predicate::field_ext::order_meets(LookupOp::Lte, order)
        },
{
}

/// A value is one of a list that is made longer where it was, or equals the added one; it
/// is none of the empty list.
pub proof fn membership_grows_with_the_list<V: FieldEq>(vals: Seq<V>, more: V, value: V)
    ensures
        !crate::predicate::field_ext::is_one_of(Seq::<V>::empty(), value),
        crate::predicate::field_ext::is_one_of(vals.push(more), value) <==> more.equals(value)
            || crate::predicate::field_ext::is_one_of(vals, value),
{
    let longer = vals.push(more);
    if more.equals(value) {
        assert(longer[vals.len() as int].equals(value));
    }
    if crate::predicate::field_ext::is_one_of(vals, value) {
        let i = choose|i: int| 0 <= i < vals.len() && (#[trigger] vals[i]).equals(value);
        assert(longer[i].equals(value));
    }
    if crate::predicate::field_ext::is_one_of(longer, value) {
        let i = choose|i: int| 0 <= i < longer.len() && (#[trigger] longer[i]).equals(value);
        if i < vals.len() {
            assert(vals[i].equals(value));
        }
    }
}

/// The order of texts is that of their first difference: they tie where they are the same,
/// a text comes before every longer one that starts with it, and otherwise the first
/// characters that differ decide.
pub proof fn first_difference_decides(a: String, b: String, k: int)
    requires
        0 <= k <= a@.len(),
        k <= b@.len(),
        forall|i: int| 0 <= i < k ==> a@[i] == b@[i],
    ensures
        a.order(b) is Some,
        a.order(b) == Some(NumberOrder::Equal) <==> a@ == b@,
        a.equals(b) <==> a@ == b@,
        k == a@.len() && k < b@.len() ==> a.order(b) == Some(NumberOrder::Less),
        k < a@.len() && k == b@.len() ==> a.order(b) == Some(NumberOrder::Greater),
        k < a@.len() && k < b@.len() && (a@[k] as u32) < (b@[k] as u32) ==> a.order(b) == Some(
            NumberOrder::Less,
        ),
        k < a@.len() && k < b@.len() && (a@[k] as u32) > (b@[k] as u32) ==> a.order(b) == Some(
            NumberOrder::Greater,
        ),
{
    let x = crate::text::codes(a@, false);
    let y = crate::text::codes(b@, false);
    assert forall|i: int| 0 <= i < k implies x[i] == y[i] by {}
    lemma_text_order(x, y, k);
    lemma_equal_texts(x, y);
    crate::text::lemma_codes_determine_text(a@, b@);
    assert(x.len() == a@.len() && y.len() == b@.len());
}

/// Codes compare at their first difference.
proof fn lemma_text_order(a: Seq<u32>, b: Seq<u32>, k: int)
    requires
        0 <= k <= a.len(),
        k <= b.len(),
        forall|i: int| 0 <= i < k ==> a[i] == b[i],
    ensures
        k == a.len() && k < b.len() ==> crate::predicate::field_value::text_order(a, b)
            == NumberOrder::Less,
        k < a.len() && k == b.len() ==> crate::predicate::field_value::text_order(a, b)
            == NumberOrder::Greater,
        k < a.len() && k < b.len() && a[k] < b[k] ==> crate::predicate::field_value::text_order(
            a,
            b,
        ) == NumberOrder::Less,
        k < a.len() && k < b.len() && a[k] > b[k] ==> crate::predicate::field_value::text_order(
            a,
            b,
        ) == NumberOrder::Greater,
    decreases k,
{
    if k > 0 {
        let c = a.drop_first();
        let d = b.drop_first();
        assert forall|i: int| 0 <= i < k - 1 implies c[i] == d[i] by {
            assert(a[i + 1] == b[i + 1]);
        }
        lemma_text_order(c, d, k - 1);
        assert(a[0] == b[0]);
    }
}

/// Codes tie where they are the same.
proof fn lemma_equal_texts(a: Seq<u32>, b: Seq<u32>)
    ensures
        crate::predicate::field_value::text_order(a, b) == NumberOrder::Equal <==> a == b,
    decreases a.len(),
{
    if a.len() > 0 && b.len() > 0 {
        lemma_equal_texts(a.drop_first(), b.drop_first());
        if a.drop_first() == b.drop_first() && a[0] == b[0] {
            assert(a =~= seq![a[0]] + a.drop_first());
            assert(b =~= seq![b[0]] + b.drop_first());
        }
        if a == b {
            assert(a.drop_first() == b.drop_first());
        }
    } else {
        assert(a.len() == 0 && b.len() == 0 ==> a =~= b);
    }
}

/// Whether `part` stands at place `i` of `text`.
pub open spec fn occurs_at(text: Seq<char>, part: Seq<char>, i: int) -> bool {
    0 <= i && i + part.len() <= text.len() && forall|j: int|
        0 <= j < part.len() ==> text[i + j] == #[trigger] part[j]
}

/// The questions about texts that heed case: that a text holds another somewhere, at its
/// start, or at its end.
pub proof fn text_questions_with_case(text: Seq<char>, part: Seq<char>)
    ensures
        ({
            let t = crate::text::codes(text, false);
            let p = crate::text::codes(part, false);
            &&& crate::predicate::field_ext::text_meets(LookupOp::Contains, t, p) <==> exists|
                i: int,
            |
                occurs_at(text, part, i)
            &&& crate::predicate::field_ext::text_meets(LookupOp::StartsWith, t, p) <==> occurs_at(
                text,
                part,
                0,
            )
            &&& crate::predicate::field_ext::text_meets(LookupOp::EndsWith, t, p) <==> occurs_at(
                text,
                part,
                text.len() - part.len(),
            )
        }),
{
    let t = crate::text::codes(text, false);
    let p = crate::text::codes(part, false);
    assert forall|i: int| crate::text::stands_at(t, p, i) == occurs_at(text, part, i) by {
        lemma_occurs(text, part, i, false);
        if occurs_at(text, part, i) {
            assert forall|j: int| 0 <= j < part.len() implies t[i + j] == #[trigger] p[j] by {
                assert(text[i + j] == part[j]);
            }
        }
        if crate::text::stands_at(t, p, i) {
            assert forall|j: int| 0 <= j < part.len() implies text[i + j] == #[trigger] part[j] by {
                assert(t[i + j] == p[j]);
                vstd::utf8::char_u32_cast(text[i + j], text[i + j] as u32);
                vstd::utf8::char_u32_cast(part[j], part[j] as u32);
            }
        }
    }
    if exists|i: int| occurs_at(text, part, i) {
        let i = choose|i: int| occurs_at(text, part, i);
        assert(crate::text::stands_at(t, p, i));
    }
    if exists|i: int| crate::text::stands_at(t, p, i) {
        let i = choose|i: int| crate::text::stands_at(t, p, i);
        assert(occurs_at(text, part, i));
    }
}

/// Codes stand somewhere where each of them does.
proof fn lemma_occurs(text: Seq<char>, part: Seq<char>, i: int, fold: bool)
    ensures
        ({
            let t = crate::text::codes(text, fold);
            let p = crate::text::codes(part, fold);
            crate::text::stands_at(t, p, i) <==> 0 <= i && i + part.len() <= text.len() && forall|
                j: int,
            |
                0 <= j < part.len() ==> t[i + j] == #[trigger] p[j]
        }),
{
    let t = crate::text::codes(text, fold);
    let p = crate::text::codes(part, fold);
    if 0 <= i && i + part.len() <= text.len() {
        if crate::text::stands_at(t, p, i) {
            assert forall|j: int| 0 <= j < part.len() implies t[i + j] == #[trigger] p[j] by {
                assert(t.subrange(i, i + p.len())[j] == p[j]);
            }
        }
        if forall|j: int| 0 <= j < part.len() ==> t[i + j] == #[trigger] p[j] {
            assert(t.subrange(i, i + p.len()) =~= p);
        }
    }
}

/// Two characters are the same but for ASCII case.
pub open spec fn same_but_case(c: char, d: char) -> bool {
    ||| c == d
    ||| 'A' <= c <= 'Z' && d as u32 == c as u32 + 32
    ||| 'A' <= d <= 'Z' && c as u32 == d as u32 + 32
}

/// Whether `part` stands at place `i` of `text`, ASCII case aside.
pub open spec fn occurs_folded_at(text: Seq<char>, part: Seq<char>, i: int) -> bool {
    0 <= i && i + part.len() <= text.len() && forall|j: int|
        0 <= j < part.len() ==> same_but_case(text[i + j], #[trigger] part[j])
}

/// The questions about texts that leave ASCII case aside, and only that.
pub proof fn text_questions_without_case(text: Seq<char>, part: Seq<char>)
    ensures
        ({
            let t = crate::text::codes(text, true);
            let p = crate::text::codes(part, true);
            &&& crate::predicate::field_ext::text_meets(LookupOp::IContains, t, p) <==> exists|
                i: int,
            |
                occurs_folded_at(text, part, i)
            &&& crate::predicate::field_ext::text_meets(LookupOp::IStartsWith, t, p)
                <==> occurs_folded_at(text, part, 0)
            &&& crate::predicate::field_ext::text_meets(LookupOp::IEndsWith, t, p)
                <==> occurs_folded_at(text, part, text.len() - part.len())
            &&& crate::predicate::field_ext::text_meets(LookupOp::IExact, t, p) <==> text.len()
                == part.len() && occurs_folded_at(text, part, 0)
        }),
{
    let t = crate::text::codes(text, true);
    let p = crate::text::codes(part, true);
    assert forall|i: int| crate::text::stands_at(t, p, i) == occurs_folded_at(text, part, i) by {
        lemma_occurs(text, part, i, true);
        if occurs_folded_at(text, part, i) {
            assert forall|j: int| 0 <= j < part.len() implies t[i + j] == #[trigger] p[j] by {
                assert(same_but_case(text[i + j], part[j]));
                lemma_folded(text[i + j], part[j]);
            }
        }
        if crate::text::stands_at(t, p, i) {
            assert forall|j: int| 0 <= j < part.len() implies same_but_case(
                text[i + j],
                #[trigger] part[j],
            ) by {
                assert(t[i + j] == p[j]);
                lemma_folded(text[i + j], part[j]);
            }
        }
    }
    if exists|i: int| occurs_folded_at(text, part, i) {
        let i = choose|i: int| occurs_folded_at(text, part, i);
        assert(crate::text::stands_at(t, p, i));
    }
    if exists|i: int| crate::text::stands_at(t, p, i) {
        let i = choose|i: int| crate::text::stands_at(t, p, i);
        assert(occurs_folded_at(text, part, i));
    }
    assert(crate::text::stands_at(t, p, 0) == occurs_folded_at(text, part, 0));
    if text.len() == part.len() {
        assert(t.subrange(0, p.len() as int) =~= t);
    }
    assert(t.len() == text.len() && p.len() == part.len());
}

/// Folding makes the same of characters that differ in ASCII case alone.
proof fn lemma_folded(c: char, d: char)
    ensures
        crate::text::folded_code(c) == crate::text::folded_code(d) <==> same_but_case(c, d),
{
    vstd::utf8::char_u32_cast(c, c as u32);
    vstd::utf8::char_u32_cast(d, d as u32);
}

/// Keys are the same where the values that they are made of are.
pub proof fn keys_tell_values_apart()
    ensures
        forall|a: i8, b: i8| #[trigger] a.key_value() == #[trigger] b.key_value() <==> a == b,
        forall|a: i16, b: i16| #[trigger] a.key_value() == #[trigger] b.key_value() <==> a == b,
        forall|a: i32, b: i32| #[trigger] a.key_value() == #[trigger] b.key_value() <==> a == b,
        forall|a: i64, b: i64| #[trigger] a.key_value() == #[trigger] b.key_value() <==> a == b,
        forall|a: i128, b: i128| #[trigger] a.key_value() == #[trigger] b.key_value() <==> a == b,
        forall|a: isize, b: isize| #[trigger] a.key_value() == #[trigger] b.key_value() <==> a == b,
        forall|a: u8, b: u8| #[trigger] a.key_value() == #[trigger] b.key_value() <==> a == b,
        forall|a: u16, b: u16| #[trigger] a.key_value() == #[trigger] b.key_value() <==> a == b,
        forall|a: u32, b: u32| #[trigger] a.key_value() == #[trigger] b.key_value() <==> a == b,
        forall|a: u64, b: u64| #[trigger] a.key_value() == #[trigger] b.key_value() <==> a == b,
        forall|a: u128, b: u128| #[trigger] a.key_value() == #[trigger] b.key_value() <==> a == b,
        forall|a: usize, b: usize| #[trigger] a.key_value() == #[trigger] b.key_value() <==> a == b,
        forall|a: bool, b: bool| #[trigger] a.key_value() == #[trigger] b.key_value() <==> a == b,
        forall|a: String, b: String| #[trigger] a.key_value() == #[trigger] b.key_value() <==> a@
            == b@,
{
}

/// Keys of characters, of values that may be absent, and of pairs are the same where these
/// are.
pub proof fn made_keys_tell_values_apart<A: QueryKey, B: QueryKey>(
    c: char,
    d: char,
    a: A,
    b: A,
    p: (A, B),
    q: (A, B),
)
    ensures
        c.key_value() == d.key_value() <==> c == d,
        None::<A>.key_value() != Some(a).key_value(),
        Some(a).key_value() == Some(b).key_value() <==> a.key_value() == b.key_value(),
        p.key_value() == q.key_value() <==> p.0.key_value() == q.0.key_value()
            && p.1.key_value() == q.1.key_value(),
{
}

} // verus!
