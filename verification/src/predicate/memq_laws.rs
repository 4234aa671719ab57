//! What holds of every sequence of operations.

use vstd::prelude::*;
use crate::cacheable::Cacheable;
use crate::jsahibon::JFiniteF64;
use crate::json::binary64::NumberOrder;
use crate::predicate::basic::BasicPredicate;
use crate::predicate::field_value::FieldOrd;
use crate::predicate::memq::{
    basic_filter_asks_the_predicate,
    Chain,
    Filter,
    FlatMap,
    Fold,
    GroupBy,
    MapEach,
    MemQ,
    Partition,
    Skip,
    Sort,
    Take,
    Unique,
};
use crate::predicate::query_key::{lemma_first_same, KeyValue};
use std::sync::Arc;

verus! {

/// Marks that follow a test keep what the test keeps.
proof fn lemma_marked_is_filter<A>(values: Seq<A>, marks: Seq<bool>, test: spec_fn(A) -> bool)
    requires
        marks.len() == values.len(),
        forall|i: int| 0 <= i < values.len() ==> #[trigger] marks[i] == test(values[i]),
    ensures
        crate::predicate::memq::marked(values, marks, true) == values.filter(test),
    decreases values.len(),
{
    reveal(Seq::filter);
    if values.len() > 0 {
        lemma_marked_is_filter(values.drop_last(), marks.drop_last(), test);
    }
}

/// A filter by a predicate leaves the values that pass, in their order.
pub proof fn predicate_filter_is_exact<T: Cacheable>(
    predicate: BasicPredicate<T>,
    values: Seq<Arc<T>>,
    out: Seq<Arc<T>>,
)
    requires
        crate::predicate::memq::step(MemQ::Filter(Filter::basic(predicate)), values, out),
    ensures
        out == values.filter(|value: Arc<T>| predicate.holds(*value)),
{
    let op = Filter::basic(predicate);
    assert(crate::predicate::memq::filtered(op, values, out));
    let marks = choose|marks: Seq<bool>| #[trigger]
        crate::predicate::memq::filter_marks(op, values, marks) && out
            == crate::predicate::memq::marked(values, marks, true);
    let test = |value: Arc<T>| predicate.holds(*value);
    assert forall|i: int| 0 <= i < values.len() implies #[trigger] marks[i] == test(values[i]) by {
        basic_filter_asks_the_predicate(predicate, *values[i], marks[i]);
    }
    lemma_marked_is_filter(values, marks, test);
}

/// Filtering a filtered sequence is filtering by both tests.
proof fn lemma_filter_twice<A>(values: Seq<A>, p: spec_fn(A) -> bool, q: spec_fn(A) -> bool)
    ensures
        values.filter(p).filter(q) == values.filter(|a: A| p(a) && q(a)),
    decreases values.len(),
{
    reveal(Seq::filter);
    if values.len() > 0 {
        lemma_filter_twice(values.drop_last(), p, q);
        let before = values.drop_last().filter(p);
        if p(values.last()) {
            assert(before.push(values.last()).drop_last() =~= before);
        }
    }
}

/// Two filters in a row leave what passes both predicates, so their order does not
/// matter.
pub proof fn filters_in_a_row_leave_what_passes_both<T: Cacheable>(
    p: BasicPredicate<T>,
    q: BasicPredicate<T>,
    values: Seq<Arc<T>>,
    between: Seq<Arc<T>>,
    out: Seq<Arc<T>>,
)
    requires
        crate::predicate::memq::step(MemQ::Filter(Filter::basic(p)), values, between),
        crate::predicate::memq::step(MemQ::Filter(Filter::basic(q)), between, out),
    ensures
        out == values.filter(|value: Arc<T>| p.holds(*value) && q.holds(*value)),
{
    predicate_filter_is_exact(p, values, between);
    predicate_filter_is_exact(q, between, out);
    let a = |value: Arc<T>| p.holds(*value);
    let b = |value: Arc<T>| q.holds(*value);
    lemma_filter_twice(values, a, b);
    assert((|value: Arc<T>| a(value) && b(value)) =~= (|value: Arc<T>|
        p.holds(*value) && q.holds(*value)));
}

/// The two sides of a marking hold every value together.
proof fn lemma_sides_hold_all<A>(values: Seq<A>, marks: Seq<bool>)
    requires
        marks.len() == values.len(),
    ensures
        crate::predicate::memq::marked(values, marks, true).to_multiset().add(
            crate::predicate::memq::marked(values, marks, false).to_multiset(),
        ) =~= values.to_multiset(),
    decreases values.len(),
{
    broadcast use vstd::seq_lib::group_to_multiset_ensures;

    if values.len() > 0 {
        lemma_sides_hold_all(values.drop_last(), marks.drop_last());
        assert(values =~= values.drop_last().push(values.last()));
    }
}

/// A partition loses no value and adds none.
pub proof fn partition_keeps_every_value<T: Cacheable>(
    op: Partition<T>,
    values: Seq<Arc<T>>,
    out: Seq<Arc<T>>,
)
    requires
        crate::predicate::memq::step(MemQ::Partition(op), values, out),
    ensures
        out.to_multiset() == values.to_multiset(),
{
    assert(crate::predicate::memq::partitioned(op, values, out));
    let marks = choose|marks: Seq<bool>| #[trigger]
        crate::predicate::memq::partition_marks(op, values, marks) && out
            == crate::predicate::memq::marked(values, marks, true)
            + crate::predicate::memq::marked(values, marks, false);
    let yes = crate::predicate::memq::marked(values, marks, true);
    let no = crate::predicate::memq::marked(values, marks, false);
    lemma_sides_hold_all(values, marks);
    vstd::seq_lib::lemma_multiset_commutative(yes, no);
}

/// A permutation of positions keeps the values.
proof fn lemma_arranged_keeps_all<A>(values: Seq<A>, positions: Seq<int>)
    requires
        positions.len() == values.len(),
        positions.no_duplicates(),
        forall|i: int| 0 <= i < positions.len() ==> 0 <= #[trigger] positions[i] < values.len(),
        forall|k: int| 0 <= k < values.len() ==> #[trigger] positions.contains(k),
    ensures
        crate::predicate::memq::arranged(values, positions).to_multiset() == values.to_multiset(),
    decreases values.len(),
{
    broadcast use vstd::seq_lib::group_to_multiset_ensures;

    let out = crate::predicate::memq::arranged(values, positions);
    if values.len() == 0 {
        assert(out =~= values);
    } else {
        let last = values.len() - 1;
        assert(positions.contains(last));
        let at = choose|at: int| 0 <= at < positions.len() && positions[at] == last;
        let rest = positions.remove(at);
        assert forall|i: int| 0 <= i < rest.len() implies 0 <= #[trigger] rest[i]
            < values.len() - 1 by {
            let j = if i < at {
                i
            } else {
                i + 1
            };
            assert(rest[i] == positions[j]);
            assert(positions[j] != positions[at]);
        }
        assert forall|k: int| 0 <= k < values.len() - 1 implies #[trigger] rest.contains(k) by {
            assert(positions.contains(k));
            let j = choose|j: int| 0 <= j < positions.len() && positions[j] == k;
            assert(j != at);
            if j < at {
                assert(rest[j] == k);
            } else {
                assert(rest[j - 1] == k);
            }
        }
        lemma_arranged_keeps_all(values.drop_last(), rest);
        assert(out.remove(at) =~= crate::predicate::memq::arranged(values.drop_last(), rest));
        assert(values =~= values.drop_last().push(values.last()));
        assert(out.to_multiset() =~= out.remove(at).to_multiset().insert(out[at]));
    }
}

/// A permutation lists each position once.
proof fn lemma_permutation_is_distinct(positions: Seq<int>, size: nat)
    requires
        crate::predicate::memq::is_permutation(positions, size),
    ensures
        positions.no_duplicates(),
{
    let all = vstd::set_lib::set_int_range(0, size as int);
    vstd::set_lib::lemma_int_range(0, size as int);
    assert(positions.to_set() =~= all) by {
        assert forall|k: int| positions.to_set().contains(k) == all.contains(k) by {
            if all.contains(k) {
                assert(positions.contains(k));
            }
            if positions.to_set().contains(k) {
                let w = choose|w: int| 0 <= w < positions.len() && positions[w] == k;
                assert(0 <= positions[w] < size);
            }
        }
    }
    positions.lemma_no_dup_set_cardinality();
}

/// A sort loses no value and adds none.
pub proof fn sort_keeps_every_value<T: Cacheable>(
    op: Sort<T>,
    values: Seq<Arc<T>>,
    out: Seq<Arc<T>>,
)
    requires
        crate::predicate::memq::step(MemQ::Sort(op), values, out),
    ensures
        out.to_multiset() == values.to_multiset(),
{
    assert(crate::predicate::memq::sorted(op, values, out));
    let positions = choose|positions: Seq<int>| #[trigger]
        op.may_sort(values, positions) && crate::predicate::memq::is_permutation(
            positions,
            values.len(),
        ) && out == crate::predicate::memq::arranged(values, positions);
    lemma_permutation_is_distinct(positions, values.len());
    lemma_arranged_keeps_all(values, positions);
}

/// A sort by key leaves no value after one with a greater key; where the keys tie, the
/// values keep their order.
pub proof fn sort_by_key_follows_the_keys<T, K: FieldOrd, F: Fn(&T) -> K>(
    f: F,
    key: spec_fn(T) -> K,
    values: Seq<Arc<T>>,
    positions: Seq<int>,
    i: int,
    j: int,
)
    requires
        forall|value: &T, k: K| #[trigger] f.ensures((value,), k) ==> k == key(*value),
        crate::predicate::memq::sorted_by_key::<T, K, F>(f, values, positions),
        0 <= i < j < positions.len(),
    ensures
        ({
            let a = key(*values[positions[i]]);
            let b = key(*values[positions[j]]);
            a.order(b)->Some_0 == NumberOrder::Less || (a.order(b)->Some_0 == NumberOrder::Equal
                && positions[i] < positions[j])
        }),
{
    let keys = choose|keys: Seq<K>| #[trigger]
        crate::predicate::memq::gives_keys(f, values, keys)
            && crate::predicate::memq::is_arrangement(
            positions,
            values.len(),
            crate::predicate::memq::key_order(keys),
        );
    let order = crate::predicate::memq::key_order(keys);
    assert(order(positions[i], positions[j]) == keys[positions[i]].order(
        keys[positions[j]],
    )->Some_0);
    assert(f.ensures((&*values[positions[i]],), keys[positions[i]]));
    assert(f.ensures((&*values[positions[j]],), keys[positions[j]]));
}

/// The earlier position comes first, by an order that agrees with the comparison on
/// neighbours.
proof fn lemma_order_from_neighbours<T>(
    order: spec_fn(T, T) -> NumberOrder,
    values: Seq<Arc<T>>,
    positions: Seq<int>,
    i: int,
    j: int,
)
    requires
        crate::predicate::stable_order::is_total(order),
        forall|k: int, l: int|
            0 <= k && l == k + 1 && l < positions.len() ==> goes_before(
                order,
                values,
                #[trigger] positions[k],
                #[trigger] positions[l],
            ),
        0 <= i < j < positions.len(),
    ensures
        goes_before(order, values, positions[i], positions[j]),
    decreases j - i,
{
    let m = j - 1;
    assert(goes_before(order, values, positions[m], positions[j]));
    if i < m {
        lemma_order_from_neighbours(order, values, positions, i, m);
        let a = *values[positions[i]];
        let b = *values[positions[m]];
        let c = *values[positions[j]];
        assert(order(a, b) != NumberOrder::Greater);
        assert(order(b, c) != NumberOrder::Greater);
        assert(order(a, c) != NumberOrder::Greater);
        if order(a, c) == NumberOrder::Equal {
            assert(order(c, a) != NumberOrder::Greater);
            assert(order(b, a) != NumberOrder::Greater);
            assert(order(c, b) != NumberOrder::Greater);
        }
    }
}

/// The value at `i` is less than the one at `j`, or ties and is the earlier one.
pub open spec fn goes_before<T>(
    order: spec_fn(T, T) -> NumberOrder,
    values: Seq<Arc<T>>,
    i: int,
    j: int,
) -> bool {
    order(*values[i], *values[j]) == NumberOrder::Less || (order(*values[i], *values[j])
        == NumberOrder::Equal && i < j)
}

/// A sort leaves no value after one that the comparison says is greater; values that tie
/// keep their order.
pub proof fn sort_follows_the_comparison<T, F: Fn(&Arc<T>, &Arc<T>) -> NumberOrder>(
    f: F,
    order: spec_fn(T, T) -> NumberOrder,
    values: Seq<Arc<T>>,
    positions: Seq<int>,
    i: int,
    j: int,
)
    requires
        crate::predicate::memq::compares_as::<T, F>(f, order),
        crate::predicate::stable_order::is_total(order),
        crate::predicate::memq::sorted_by(f, values, positions),
        0 <= i < j < positions.len(),
    ensures
        goes_before(order, values, positions[i], positions[j]),
{
    let used = choose|used: spec_fn(T, T) -> NumberOrder| #[trigger]
        crate::predicate::memq::compares_as::<T, F>(f, used)
            && crate::predicate::stable_order::is_total(used)
            && crate::predicate::memq::is_arrangement(
            positions,
            values.len(),
            crate::predicate::memq::at(values, used),
        );
    let by_position = crate::predicate::memq::at(values, used);
    assert forall|k: int, l: int| 0 <= k && l == k + 1 && l < positions.len() implies goes_before(
        order,
        values,
        #[trigger] positions[k],
        #[trigger] positions[l],
    ) by {
        let a = values[positions[k]];
        let b = values[positions[l]];
        assert(by_position(positions[k], positions[l]) == used(*a, *b));
        if crate::predicate::memq::has_compared(f, a, b) {
            let said = choose|said: NumberOrder| #[trigger] f.ensures((&a, &b), said);
            assert(said == order(*a, *b) && said == used(*a, *b));
        } else {
            let said = choose|said: NumberOrder| #[trigger] f.ensures((&b, &a), said);
            assert(said == order(*b, *a) && said == used(*b, *a));
            assert((order(*a, *b) == NumberOrder::Less) == (order(*b, *a)
                == NumberOrder::Greater));
            assert((used(*a, *b) == NumberOrder::Less) == (used(*b, *a) == NumberOrder::Greater));
        }
    }
    lemma_order_from_neighbours(order, values, positions, i, j);
}

/// Grouping loses no value and adds none.
pub proof fn grouping_keeps_every_value<T: Cacheable>(
    op: GroupBy<T>,
    values: Seq<Arc<T>>,
    out: Seq<Arc<T>>,
)
    requires
        crate::predicate::memq::step(MemQ::GroupBy(op), values, out),
    ensures
        out.to_multiset() == values.to_multiset(),
{
    assert(crate::predicate::memq::grouped(op, values, out));
    let (keys, positions) = choose|keys: Seq<KeyValue>, positions: Seq<int>|
        #![trigger crate::predicate::memq::group_keys(op, values, keys),
            crate::predicate::memq::arranged(values, positions)]
        crate::predicate::memq::group_keys(op, values, keys)
            && crate::predicate::memq::is_arrangement(
            positions,
            values.len(),
            crate::predicate::memq::by_first_same(keys),
        ) && out == crate::predicate::memq::arranged(values, positions);
    lemma_permutation_is_distinct(positions, values.len());
    lemma_arranged_keeps_all(values, positions);
}

/// Between two values of a key, grouping leaves only values of that key.
pub proof fn grouping_puts_equal_keys_together(
    keys: Seq<KeyValue>,
    positions: Seq<int>,
    i: int,
    j: int,
    k: int,
)
    requires
        crate::predicate::memq::is_arrangement(
            positions,
            keys.len(),
            crate::predicate::memq::by_first_same(keys),
        ),
        0 <= i < j < k < positions.len(),
        keys[positions[i]] == keys[positions[k]],
    ensures
        keys[positions[j]] == keys[positions[i]],
{
    let order = crate::predicate::memq::by_first_same(keys);
    assert(order(positions[i], positions[j]) != NumberOrder::Greater);
    assert(order(positions[j], positions[k]) != NumberOrder::Greater);
    lemma_first_same(keys, positions[i], positions[k]);
    lemma_first_same(keys, positions[i], positions[j]);
}

/// Of the keys, the first ones hold each key exactly once.
pub proof fn unique_keeps_one_of_each_key(keys: Seq<KeyValue>)
    ensures
        ({
            let kept = crate::predicate::memq::marked(
                keys,
                crate::predicate::memq::firsts(keys),
                true,
            );
            &&& kept.no_duplicates()
            &&& forall|key: KeyValue| #[trigger] kept.contains(key) == keys.contains(key)
        }),
    decreases keys.len(),
{
    let marks = crate::predicate::memq::firsts(keys);
    let kept = crate::predicate::memq::marked(keys, marks, true);
    if keys.len() > 0 {
        let rest = keys.drop_last();
        unique_keeps_one_of_each_key(rest);
        assert(marks.drop_last() =~= crate::predicate::memq::firsts(rest)) by {
            assert forall|i: int| 0 <= i < rest.len() implies #[trigger] marks[i]
                == crate::predicate::memq::firsts(rest)[i] by {
                assert(keys.take(i) =~= rest.take(i));
            }
        }
        let before = crate::predicate::memq::marked(
            rest,
            crate::predicate::memq::firsts(rest),
            true,
        );
        assert(keys.take(keys.len() - 1) =~= rest);
        assert(marks.last() == !rest.contains(keys.last()));
        assert(before.contains(keys.last()) == rest.contains(keys.last()));
        assert(keys =~= rest.push(keys.last()));
        assert forall|key: KeyValue| #[trigger] kept.contains(key) == keys.contains(key) by {
            assert(before.contains(key) == rest.contains(key));
            if keys.contains(key) {
                let w = choose|w: int| 0 <= w < keys.len() && keys[w] == key;
                if w < rest.len() {
                    assert(rest[w] == key);
                    let v = choose|v: int| 0 <= v < before.len() && before[v] == key;
                    assert(kept[v] == key);
                } else if marks.last() {
                    assert(kept[before.len() as int] == key);
                } else {
                    let v = choose|v: int| 0 <= v < before.len() && before[v] == key;
                    assert(kept[v] == key);
                }
            }
            if kept.contains(key) {
                let w = choose|w: int| 0 <= w < kept.len() && kept[w] == key;
                if w < before.len() {
                    assert(before[w] == key);
                    let v = choose|v: int| 0 <= v < rest.len() && rest[v] == key;
                    assert(keys[v] == key);
                } else {
                    assert(keys[keys.len() - 1] == key);
                }
            }
        }
        if marks.last() {
            assert forall|i: int, j: int|
                0 <= i < kept.len() && 0 <= j < kept.len() && i != j implies kept[i] != kept[j] by {
                if i == before.len() {
                    assert(before[j] == kept[j]);
                    assert(before.contains(before[j]));
                } else if j == before.len() {
                    assert(before[i] == kept[i]);
                    assert(before.contains(before[i]));
                } else {
                    assert(before[i] != before[j]);
                }
            }
        }
    }
}

/// Operations in a row are the first ones and then the others.
pub proof fn pipelines_compose<T: Cacheable>(
    first: Seq<MemQ<T>>,
    second: Seq<MemQ<T>>,
    values: Seq<Arc<T>>,
    between: Seq<Arc<T>>,
    out: Seq<Arc<T>>,
)
    requires
        crate::predicate::memq::outcome(first, values, between),
        crate::predicate::memq::outcome(second, between, out),
    ensures
        crate::predicate::memq::outcome(first + second, values, out),
    decreases second.len(),
{
    if second.len() == 0 {
        assert(first + second =~= first);
    } else {
        let near = choose|near: Seq<Arc<T>>|
            crate::predicate::memq::outcome(second.drop_last(), between, near)
                && #[trigger] crate::predicate::memq::step(second.last(), near, out);
        pipelines_compose(first, second.drop_last(), values, between, near);
        assert((first + second).drop_last() =~= first + second.drop_last());
        assert((first + second).last() == second.last());
        assert(crate::predicate::memq::step((first + second).last(), near, out));
    }
}

/// The order of texts is total: it is the same seen from either side, and passes on.
proof fn lemma_text_order(a: Seq<u32>, b: Seq<u32>, c: Seq<u32>)
    ensures
        (crate::predicate::field_value::text_order(a, b) == NumberOrder::Less) == (
        crate::predicate::field_value::text_order(b, a) == NumberOrder::Greater),
        (crate::predicate::field_value::text_order(a, b) == NumberOrder::Equal) == (
        crate::predicate::field_value::text_order(b, a) == NumberOrder::Equal),
        crate::predicate::field_value::text_order(a, b) != NumberOrder::Greater
            && crate::predicate::field_value::text_order(b, c) != NumberOrder::Greater
            ==> crate::predicate::field_value::text_order(a, c) != NumberOrder::Greater,
    decreases a.len() + b.len() + c.len(),
{
    if a.len() > 0 && b.len() > 0 {
        let d = if c.len() > 0 {
            c.drop_first()
        } else {
            c
        };
        lemma_text_order(a.drop_first(), b.drop_first(), d);
    }
}

/// Signed integers can be sorted by.
proof fn lemma_signed_keys()
    ensures
        crate::predicate::memq::keys_are_ordered::<i8>(),
        crate::predicate::memq::keys_are_ordered::<i16>(),
        crate::predicate::memq::keys_are_ordered::<i32>(),
        crate::predicate::memq::keys_are_ordered::<i64>(),
        crate::predicate::memq::keys_are_ordered::<i128>(),
        crate::predicate::memq::keys_are_ordered::<isize>(),
{
}

/// Unsigned integers can be sorted by.
proof fn lemma_unsigned_keys()
    ensures
        crate::predicate::memq::keys_are_ordered::<u8>(),
        crate::predicate::memq::keys_are_ordered::<u16>(),
        crate::predicate::memq::keys_are_ordered::<u32>(),
        crate::predicate::memq::keys_are_ordered::<u64>(),
        crate::predicate::memq::keys_are_ordered::<u128>(),
        crate::predicate::memq::keys_are_ordered::<usize>(),
{
}

/// Characters, truth values and finite numbers can be sorted by.
proof fn lemma_other_keys()
    ensures
        crate::predicate::memq::keys_are_ordered::<char>(),
        crate::predicate::memq::keys_are_ordered::<bool>(),
        crate::predicate::memq::keys_are_ordered::<JFiniteF64>(),
{
}

/// Texts can be sorted by.
proof fn lemma_text_keys()
    ensures
        crate::predicate::memq::keys_are_ordered::<String>(),
{
    let order = |a: String, b: String| a.order(b)->Some_0;
    assert(crate::predicate::stable_order::is_total(order)) by {
        assert forall|a: String, b: String|
            (#[trigger] order(a, b) == NumberOrder::Less) == (order(b, a) == NumberOrder::Greater)
                && (order(a, b) == NumberOrder::Equal) == (order(b, a) == NumberOrder::Equal) by {
            lemma_text_order(
                crate::text::codes(a@, false),
                crate::text::codes(b@, false),
                Seq::empty(),
            );
        }
        assert forall|a: String, b: String, c: String|
            #[trigger] order(a, b) != NumberOrder::Greater && #[trigger] order(b, c)
                != NumberOrder::Greater implies order(a, c) != NumberOrder::Greater by {
            lemma_text_order(
                crate::text::codes(a@, false),
                crate::text::codes(b@, false),
                crate::text::codes(c@, false),
            );
        }
    }
}

/// Integers, characters, truth values, finite numbers and texts can be sorted by.
pub proof fn plain_keys_are_ordered()
    ensures
        crate::predicate::memq::keys_are_ordered::<i8>(),
        crate::predicate::memq::keys_are_ordered::<i16>(),
        crate::predicate::memq::keys_are_ordered::<i32>(),
        crate::predicate::memq::keys_are_ordered::<i64>(),
        crate::predicate::memq::keys_are_ordered::<i128>(),
        crate::predicate::memq::keys_are_ordered::<isize>(),
        crate::predicate::memq::keys_are_ordered::<u8>(),
        crate::predicate::memq::keys_are_ordered::<u16>(),
        crate::predicate::memq::keys_are_ordered::<u32>(),
        crate::predicate::memq::keys_are_ordered::<u64>(),
        crate::predicate::memq::keys_are_ordered::<u128>(),
        crate::predicate::memq::keys_are_ordered::<usize>(),
        crate::predicate::memq::keys_are_ordered::<char>(),
        crate::predicate::memq::keys_are_ordered::<bool>(),
        crate::predicate::memq::keys_are_ordered::<JFiniteF64>(),
        crate::predicate::memq::keys_are_ordered::<String>(),
{
    lemma_signed_keys();
    lemma_unsigned_keys();
    lemma_other_keys();
    lemma_text_keys();
}

/// Keys that may be absent can be sorted by where the keys can.
pub proof fn optional_keys_are_ordered<V: FieldOrd>()
    requires
        crate::predicate::memq::keys_are_ordered::<V>(),
    ensures
        crate::predicate::memq::keys_are_ordered::<Option<V>>(),
{
    let plain = |a: V, b: V| a.order(b)->Some_0;
    let order = |a: Option<V>, b: Option<V>| a.order(b)->Some_0;
    assert(crate::predicate::stable_order::is_total(plain));
    assert forall|a: Option<V>, b: Option<V>| #[trigger] a.order(b) is Some by {
        if let (Some(x), Some(y)) = (a, b) {
            assert(x.order(y) is Some);
        }
    }
    assert(crate::predicate::stable_order::is_total(order)) by {
        assert forall|a: Option<V>, b: Option<V>|
            (#[trigger] order(a, b) == NumberOrder::Less) == (order(b, a) == NumberOrder::Greater)
                && (order(a, b) == NumberOrder::Equal) == (order(b, a) == NumberOrder::Equal) by {
            if let (Some(x), Some(y)) = (a, b) {
                assert(plain(x, y) == order(a, b) && plain(y, x) == order(b, a));
            }
        }
        assert forall|a: Option<V>, b: Option<V>, c: Option<V>|
            #[trigger] order(a, b) != NumberOrder::Greater && #[trigger] order(b, c)
                != NumberOrder::Greater implies order(a, c) != NumberOrder::Greater by {
            if let (Some(x), Some(y), Some(z)) = (a, b, c) {
                assert(plain(x, y) == order(a, b) && plain(y, z) == order(b, c));
                assert(plain(x, z) == order(a, c));
            }
        }
    }
}

/// Pairs of keys can be sorted by where the keys can.
pub proof fn pairs_of_keys_are_ordered<A: FieldOrd, B: FieldOrd>()
    requires
        crate::predicate::memq::keys_are_ordered::<A>(),
        crate::predicate::memq::keys_are_ordered::<B>(),
    ensures
        crate::predicate::memq::keys_are_ordered::<(A, B)>(),
{
    let first = |a: A, b: A| a.order(b)->Some_0;
    let second = |a: B, b: B| a.order(b)->Some_0;
    let order = |a: (A, B), b: (A, B)| a.order(b)->Some_0;
    assert(crate::predicate::stable_order::is_total(first));
    assert(crate::predicate::stable_order::is_total(second));
    assert forall|a: (A, B), b: (A, B)| #[trigger] a.order(b) is Some by {
        assert(a.0.order(b.0) is Some && a.1.order(b.1) is Some);
    }
    assert forall|a: (A, B), b: (A, B)| #[trigger]
        order(a, b) == (if first(a.0, b.0) == NumberOrder::Equal {
            second(a.1, b.1)
        } else {
            first(a.0, b.0)
        }) by {
        assert(a.0.order(b.0) is Some && a.1.order(b.1) is Some);
    }
    assert(crate::predicate::stable_order::is_total(order)) by {
        assert forall|a: (A, B), b: (A, B)|
            (#[trigger] order(a, b) == NumberOrder::Less) == (order(b, a) == NumberOrder::Greater)
                && (order(a, b) == NumberOrder::Equal) == (order(b, a) == NumberOrder::Equal) by {
            assert((first(a.0, b.0) == NumberOrder::Less) == (first(b.0, a.0)
                == NumberOrder::Greater));
            assert((first(b.0, a.0) == NumberOrder::Less) == (first(a.0, b.0)
                == NumberOrder::Greater));
            assert((second(a.1, b.1) == NumberOrder::Less) == (second(b.1, a.1)
                == NumberOrder::Greater));
        }
        assert forall|a: (A, B), b: (A, B), c: (A, B)|
            #[trigger] order(a, b) != NumberOrder::Greater && #[trigger] order(b, c)
                != NumberOrder::Greater implies order(a, c) != NumberOrder::Greater by {
            assert(first(a.0, b.0) != NumberOrder::Greater);
            assert(first(b.0, c.0) != NumberOrder::Greater);
            assert(first(a.0, c.0) != NumberOrder::Greater);
            if first(a.0, c.0) == NumberOrder::Equal {
                assert(first(c.0, a.0) == NumberOrder::Equal);
                assert(first(b.0, a.0) != NumberOrder::Greater);
                assert(first(a.0, b.0) == NumberOrder::Equal);
                assert(first(c.0, b.0) != NumberOrder::Greater);
                assert(first(b.0, c.0) == NumberOrder::Equal);
                assert(second(a.1, b.1) != NumberOrder::Greater);
                assert(second(b.1, c.1) != NumberOrder::Greater);
            }
        }
    }
}

/// The same operation may turn the same values into the same.
pub proof fn same_operations_do_the_same<T: Cacheable>(
    a: MemQ<T>,
    b: MemQ<T>,
    values: Seq<Arc<T>>,
    out: Seq<Arc<T>>,
)
    requires
        crate::predicate::memq::same_operation(a, b),
    ensures
        crate::predicate::memq::step(a, values, out) == crate::predicate::memq::step(b, values, out),
{
    if let (MemQ::Filter(x), MemQ::Filter(y)) = (a, b) {
        assert forall|marks: Seq<bool>| #[trigger]
            crate::predicate::memq::filter_marks(x, values, marks) == crate::predicate::memq::filter_marks(y, values, marks) by {
            assert forall|i: int| 0 <= i < values.len() implies x.may_answer(
                *values[i],
                #[trigger] marks[i],
            ) == y.may_answer(*values[i], marks[i]) by {}
        }
        if crate::predicate::memq::filtered(x, values, out) {
            let marks = choose|marks: Seq<bool>| #[trigger]
                crate::predicate::memq::filter_marks(x, values, marks) && out == crate::predicate::memq::marked(values, marks, true);
            assert(crate::predicate::memq::filter_marks(y, values, marks));
        }
        if crate::predicate::memq::filtered(y, values, out) {
            let marks = choose|marks: Seq<bool>| #[trigger]
                crate::predicate::memq::filter_marks(y, values, marks) && out == crate::predicate::memq::marked(values, marks, true);
            assert(crate::predicate::memq::filter_marks(x, values, marks));
        }
    }
}

/// The first values and the rest of them, for the same number, are all of them in order.
pub proof fn take_and_skip_split_the_values<T: Cacheable>(
    take: Take,
    skip: Skip,
    values: Seq<Arc<T>>,
    taken: Seq<Arc<T>>,
    rest: Seq<Arc<T>>,
)
    requires
        take.spec_count() == skip.spec_count(),
        crate::predicate::memq::step(MemQ::Take(take), values, taken),
        crate::predicate::memq::step(MemQ::Skip(skip), values, rest),
    ensures
        taken + rest == values,
        take.spec_count() <= values.len() ==> taken.len() == take.spec_count(),
        take.spec_count() > values.len() ==> rest.len() == 0,
{
    take.lemma_count();
    assert(taken + rest =~= values);
}

/// A replacement gives for each value one that may stand for it, in the same place.
pub proof fn mapping_replaces_each_value<T: Cacheable>(
    op: MapEach<T>,
    values: Seq<Arc<T>>,
    out: Seq<Arc<T>>,
)
    requires
        crate::predicate::memq::step(MemQ::MapEach(op), values, out),
    ensures
        out.len() == values.len(),
        forall|i: int| 0 <= i < values.len() ==> op.may_map(*values[i], *#[trigger] out[i]),
{
}

/// A replacement by sequences gives those of the first values, and then that of the last.
pub proof fn flat_mapping_joins_its_parts<T: Cacheable>(
    op: FlatMap<T>,
    values: Seq<Arc<T>>,
    value: Arc<T>,
    out: Seq<Arc<T>>,
)
    requires
        crate::predicate::memq::step(MemQ::FlatMap(op), values.push(value), out),
    ensures
        exists|head: Seq<Arc<T>>, part: Seq<Arc<T>>|
            #![trigger op.may_map(*value, part), head + part]
            crate::predicate::memq::step(MemQ::FlatMap(op), values, head) && op.may_map(*value, part) && out == head
                + part,
{
    let all = values.push(value);
    assert(crate::predicate::memq::flat_mapped(op, all, out));
    let parts = choose|parts: Seq<Seq<Arc<T>>>| #[trigger]
        crate::predicate::memq::flat_map_parts(op, all, parts) && out == crate::predicate::memq::joined(parts);
    let front = parts.drop_last();
    assert(crate::predicate::memq::flat_map_parts(op, values, front)) by {
        assert forall|i: int| 0 <= i < values.len() implies op.may_map(
            *values[i],
            #[trigger] front[i],
        ) by {
            assert(op.may_map(*all[i], parts[i]));
        }
    }
    let head = crate::predicate::memq::joined(front);
    let part = parts.last();
    assert(op.may_map(*all[values.len() as int], parts[values.len() as int]));
    assert(crate::predicate::memq::step(MemQ::FlatMap(op), values, head));
    assert(out == head + part);
}

/// No values are replaced by none.
pub proof fn flat_mapping_nothing_gives_nothing<T: Cacheable>(op: FlatMap<T>, out: Seq<Arc<T>>)
    requires
        crate::predicate::memq::step(MemQ::FlatMap(op), Seq::empty(), out),
    ensures
        out.len() == 0,
{
    assert(crate::predicate::memq::flat_mapped(op, Seq::empty(), out));
}

/// Appending leaves the values, and the appended ones after them.
pub proof fn chaining_appends<T: Cacheable>(
    op: Chain<T>,
    values: Seq<Arc<T>>,
    out: Seq<Arc<T>>,
)
    requires
        crate::predicate::memq::step(MemQ::Chain(op), values, out),
    ensures
        out.len() == values.len() + op.appended().len(),
        forall|i: int| 0 <= i < values.len() ==> #[trigger] out[i] == values[i],
        forall|i: int| 0 <= i < op.appended().len() ==> out[values.len() + i]
            == #[trigger] op.appended()[i],
{
}

/// A reduction leaves the one value that it gives, or none where it gives none.
pub proof fn folding_leaves_what_it_gives<T: Cacheable>(
    op: Fold<T>,
    values: Seq<Arc<T>>,
    out: Seq<Arc<T>>,
)
    requires
        crate::predicate::memq::step(MemQ::Fold(op), values, out),
    ensures
        out.len() == 0 ==> op.may_fold(values, None),
        out.len() > 0 ==> out.len() == 1 && op.may_fold(values, Some(out[0])),
{
}

/// A filter by a test that has one answer for each value leaves those that pass, in their
/// order.
pub proof fn test_filter_is_exact<T: Cacheable>(
    op: Filter<T>,
    test: spec_fn(T) -> bool,
    values: Seq<Arc<T>>,
    out: Seq<Arc<T>>,
)
    requires
        forall|value: T, answer: bool| #[trigger] op.may_answer(value, answer) ==> answer == test(
            value,
        ),
        crate::predicate::memq::step(MemQ::Filter(op), values, out),
    ensures
        out == values.filter(|value: Arc<T>| test(*value)),
{
    assert(crate::predicate::memq::filtered(op, values, out));
    let marks = choose|marks: Seq<bool>| #[trigger]
        crate::predicate::memq::filter_marks(op, values, marks) && out == crate::predicate::memq::marked(values, marks, true);
    let passes = |value: Arc<T>| test(*value);
    assert forall|i: int| 0 <= i < values.len() implies #[trigger] marks[i] == passes(values[i]) by {
        assert(op.may_answer(*values[i], marks[i]));
    }
    lemma_marked_is_filter(values, marks, passes);
}

/// The other side of a marking is what fails the test.
proof fn lemma_unmarked_is_filter<A>(values: Seq<A>, marks: Seq<bool>, test: spec_fn(A) -> bool)
    requires
        marks.len() == values.len(),
        forall|i: int| 0 <= i < values.len() ==> #[trigger] marks[i] == !test(values[i]),
    ensures
        crate::predicate::memq::marked(values, marks, false) == values.filter(test),
    decreases values.len(),
{
    reveal(Seq::filter);
    if values.len() > 0 {
        lemma_unmarked_is_filter(values.drop_last(), marks.drop_last(), test);
    }
}

/// A partition by a test that has one answer for each value leaves first the values that
/// pass and then the others, both in their order.
pub proof fn partition_is_exact<T: Cacheable>(
    op: Partition<T>,
    test: spec_fn(T) -> bool,
    values: Seq<Arc<T>>,
    out: Seq<Arc<T>>,
)
    requires
        forall|value: T, answer: bool| #[trigger] op.may_answer(value, answer) ==> answer == test(
            value,
        ),
        crate::predicate::memq::step(MemQ::Partition(op), values, out),
    ensures
        out == values.filter(|value: Arc<T>| test(*value)) + values.filter(
            |value: Arc<T>| !test(*value),
        ),
{
    assert(crate::predicate::memq::partitioned(op, values, out));
    let marks = choose|marks: Seq<bool>| #[trigger]
        crate::predicate::memq::partition_marks(op, values, marks) && out == crate::predicate::memq::marked(values, marks, true)
            + crate::predicate::memq::marked(values, marks, false);
    let passes = |value: Arc<T>| test(*value);
    let fails = |value: Arc<T>| !test(*value);
    assert forall|i: int| 0 <= i < values.len() implies #[trigger] marks[i] == passes(values[i])
        && marks[i] == !fails(values[i]) by {
        assert(op.may_answer(*values[i], marks[i]));
    }
    lemma_marked_is_filter(values, marks, passes);
    lemma_unmarked_is_filter(values, marks, fails);
}

/// Of each key the first value stays: a value that comes last is kept where no earlier one
/// has its key, and dropped otherwise.
pub proof fn unique_keeps_the_first_of_each_key<T: Cacheable>(
    op: Unique<T>,
    key: spec_fn(T) -> KeyValue,
    values: Seq<Arc<T>>,
    value: Arc<T>,
    out: Seq<Arc<T>>,
)
    requires
        forall|v: T, k: KeyValue| #[trigger] op.may_key(v, k) ==> k == key(v),
        crate::predicate::memq::step(MemQ::Unique(op), values.push(value), out),
    ensures
        exists|head: Seq<Arc<T>>|
            crate::predicate::memq::step(MemQ::Unique(op), values, head) && out == (if exists|i: int|
                0 <= i < values.len() && key(*#[trigger] values[i]) == key(*value) {
                head
            } else {
                head.push(value)
            }),
{
    let all = values.push(value);
    assert(crate::predicate::memq::made_unique(op, all, out));
    let keys = choose|keys: Seq<KeyValue>| #[trigger]
        crate::predicate::memq::unique_keys(op, all, keys) && out == crate::predicate::memq::marked(all, crate::predicate::memq::firsts(keys), true);
    assert forall|i: int| 0 <= i < all.len() implies #[trigger] keys[i] == key(*all[i]) by {
        assert(op.may_key(*all[i], keys[i]));
    }
    let front = keys.drop_last();
    assert(crate::predicate::memq::unique_keys(op, values, front)) by {
        assert forall|i: int| 0 <= i < values.len() implies op.may_key(
            *values[i],
            #[trigger] front[i],
        ) by {
            assert(op.may_key(*all[i], keys[i]));
        }
    }
    assert(all.drop_last() =~= values);
    assert(crate::predicate::memq::firsts(keys).drop_last() =~= crate::predicate::memq::firsts(front)) by {
        assert forall|i: int| 0 <= i < front.len() implies crate::predicate::memq::firsts(keys)[i] == crate::predicate::memq::firsts(
            front,
        )[i] by {
            assert(keys.take(i) =~= front.take(i));
        }
    }
    let head = crate::predicate::memq::marked(values, crate::predicate::memq::firsts(front), true);
    assert(crate::predicate::memq::step(MemQ::Unique(op), values, head));
    let n = values.len() as int;
    assert(keys.take(n) =~= front);
    assert(front.contains(keys[n]) == exists|i: int|
        0 <= i < values.len() && key(*#[trigger] values[i]) == key(*value)) by {
        if front.contains(keys[n]) {
            let i = front.index_of(keys[n]);
            assert(keys[i] == key(*all[i]));
            assert(key(*values[i]) == key(*value));
        }
        if exists|i: int| 0 <= i < values.len() && key(*#[trigger] values[i]) == key(*value) {
            let i = choose|i: int|
                0 <= i < values.len() && key(*#[trigger] values[i]) == key(*value);
            assert(keys[i] == key(*all[i]));
            assert(front[i] == keys[n]);
        }
    }
    assert(crate::predicate::memq::firsts(keys).last() == !front.contains(keys[n]));
}

/// Groups come in the order of their first values, and the values of a group in theirs.
pub proof fn groups_come_in_the_order_of_their_firsts<T: Cacheable>(
    op: GroupBy<T>,
    key: spec_fn(T) -> KeyValue,
    values: Seq<Arc<T>>,
    out: Seq<Arc<T>>,
)
    requires
        forall|v: T, k: KeyValue| #[trigger] op.may_key(v, k) ==> k == key(v),
        crate::predicate::memq::step(MemQ::GroupBy(op), values, out),
    ensures
        exists|at: Seq<int>| #[trigger] grouped_at(key, values, out, at),
{
    assert(crate::predicate::memq::grouped(op, values, out));
    let (keys, at) = choose|keys: Seq<KeyValue>, positions: Seq<int>|
        #![trigger crate::predicate::memq::group_keys(op, values, keys), crate::predicate::memq::arranged(values, positions)]
        crate::predicate::memq::group_keys(op, values, keys) && crate::predicate::memq::is_arrangement(
            positions,
            values.len(),
            crate::predicate::memq::by_first_same(keys),
        ) && out == crate::predicate::memq::arranged(values, positions);
    assert forall|i: int| 0 <= i < values.len() implies #[trigger] keys[i] == key(*values[i]) by {
        assert(op.may_key(*values[i], keys[i]));
    }
    lemma_permutation_is_distinct(at, values.len());
    assert forall|i: int, j: int| 0 <= i < j < at.len() implies comes_grouped(
        key,
        values,
        #[trigger] at[i],
        #[trigger] at[j],
    ) by {
        let a = at[i];
        let b = at[j];
        lemma_first_same(keys, a, b);
        lemma_first_same(keys, b, a);
        let x = crate::predicate::query_key::first_same(keys, a);
        let y = crate::predicate::query_key::first_same(keys, b);
        assert(keys[a] == key(*values[a]) && keys[b] == key(*values[b]));
        assert(keys[x] == key(*values[x]) && keys[y] == key(*values[y]));
        let order = crate::predicate::memq::by_first_same(keys);
        assert(order(a, b) == crate::json::binary64::order_of(x, y));
        if key(*values[a]) != key(*values[b]) {
            assert(x < y) by {
                assert(keys[x] != keys[y]);
            }
            assert forall|k: int| 0 <= k < values.len() && key(*#[trigger] values[k]) == key(
                *values[b],
            ) implies x < k by {
                assert(keys[k] == key(*values[k]));
                lemma_first_same(keys, k, b);
            }
        }
    }
    assert(grouped_at(key, values, out, at));
}

/// The value at `a` comes before that at `b` where values are grouped.
pub open spec fn comes_grouped<T>(
    key: spec_fn(T) -> KeyValue,
    values: Seq<Arc<T>>,
    a: int,
    b: int,
) -> bool {
    if key(*values[a]) == key(*values[b]) {
        a < b
    } else {
        exists|x: int|
            0 <= x < values.len() && key(*#[trigger] values[x]) == key(*values[a]) && forall|
                k: int,
            |
                0 <= k < values.len() && key(*#[trigger] values[k]) == key(*values[b]) ==> x < k
    }
}

/// `out` holds the values of the places `at`, each place once, grouped.
pub open spec fn grouped_at<T>(
    key: spec_fn(T) -> KeyValue,
    values: Seq<Arc<T>>,
    out: Seq<Arc<T>>,
    at: Seq<int>,
) -> bool {
    &&& out.len() == values.len() && at.len() == values.len()
    &&& at.no_duplicates()
    &&& forall|i: int|
        0 <= i < at.len() ==> 0 <= #[trigger] at[i] < values.len() && out[i] == values[at[i]]
    &&& forall|i: int, j: int|
        0 <= i < j < at.len() ==> comes_grouped(key, values, #[trigger] at[i], #[trigger] at[j])
}

/// A sort puts at each place the value of the position that it lists there.
pub proof fn sorted_values_stand_at_their_positions<T: Cacheable>(
    op: Sort<T>,
    values: Seq<Arc<T>>,
    out: Seq<Arc<T>>,
)
    requires
        crate::predicate::memq::step(MemQ::Sort(op), values, out),
    ensures
        out.len() == values.len(),
        exists|positions: Seq<int>| #[trigger]
            op.may_sort(values, positions) && positions.len() == values.len() && forall|i: int|
                0 <= i < positions.len() ==> 0 <= #[trigger] positions[i] < values.len() && out[i]
                    == values[positions[i]],
{
    assert(crate::predicate::memq::sorted(op, values, out));
    let positions = choose|positions: Seq<int>| #[trigger]
        op.may_sort(values, positions) && crate::predicate::memq::is_permutation(
            positions,
            values.len(),
        ) && out == crate::predicate::memq::arranged(values, positions);
    assert(op.may_sort(values, positions));
}

/// Operations run one after the other, the first one first: without any the values stay, and
/// one more works on what the others left.
pub proof fn operations_run_in_turn<T: Cacheable>(
    ops: Seq<MemQ<T>>,
    op: MemQ<T>,
    values: Seq<Arc<T>>,
    out: Seq<Arc<T>>,
)
    ensures
        crate::predicate::memq::outcome(Seq::<MemQ<T>>::empty(), values, out) <==> out == values,
        crate::predicate::memq::outcome(ops.push(op), values, out) <==> exists|between: Seq<Arc<T>>|
            crate::predicate::memq::outcome(ops, values, between)
                && #[trigger] crate::predicate::memq::step(op, between, out),
{
    assert(ops.push(op).drop_last() =~= ops);
    assert(ops.push(op).last() == op);
}

} // verus!
