//! Lazy operations over sequences of shared values.

use vstd::prelude::*;
use crate::cacheable::Cacheable;
use crate::json::binary64::NumberOrder;
use crate::predicate::basic::BasicPredicate;
use crate::predicate::field_value::FieldOrd;
use crate::predicate::query_key::{classes_of, KeyValue, QueryKey};
use crate::predicate::stable_order::{stable_order, Positions};
use std::marker::PhantomData;
use std::sync::Arc;

verus! {

/// A test of values.
pub trait Test<T>: Send + Sync {
    /// Whether the test may give this answer for `value`.
    spec fn may_answer(&self, value: T, answer: bool) -> bool;

    /// Tests a value.
    fn test(&self, value: &T) -> (r: bool)
        ensures
            self.may_answer(*value, r),
    ;
}

/// A replacement of values.
pub trait Mapper<T>: Send + Sync {
    /// Whether `value` may be replaced by `by`.
    spec fn may_map(&self, value: T, by: T) -> bool;

    /// Replaces a value.
    fn map(&self, value: Arc<T>) -> (r: Arc<T>)
        ensures
            self.may_map(*value, *r),
    ;
}

/// A replacement of values by sequences.
pub trait FlatMapper<T>: Send + Sync {
    /// Whether `value` may be replaced by `by`.
    spec fn may_map(&self, value: T, by: Seq<Arc<T>>) -> bool;

    /// Replaces a value.
    fn flat_map(&self, value: Arc<T>) -> (r: Vec<Arc<T>>)
        ensures
            self.may_map(*value, r@),
    ;
}

/// A way to sort values.
pub trait Sorter<T>: Send + Sync {
    /// Whether the values may be put in the order of these positions.
    spec fn may_sort(&self, values: Seq<Arc<T>>, positions: Seq<int>) -> bool;

    /// Lists the positions of the values, from the first to the last.
    fn sort(&self, values: &Vec<Arc<T>>) -> (r: Vec<usize>)
        ensures
            is_permutation(ints(r@), values@.len()),
            self.may_sort(values@, ints(r@)),
    ;
}

/// A key of values.
pub trait Keyer<T>: Send + Sync {
    /// Whether `key` may be the key of `value`.
    spec fn may_key(&self, value: T, key: KeyValue) -> bool;

    /// Gives for each value the position of the first one with the same key.
    fn classes(&self, values: &Vec<Arc<T>>) -> (r: Vec<usize>)
        ensures
            exists|keys: Seq<KeyValue>|
                keys.len() == values@.len() && (forall|i: int|
                    0 <= i < keys.len() ==> self.may_key(*values@[i], #[trigger] keys[i]))
                    && #[trigger] crate::predicate::query_key::are_classes(r@, keys),
    ;
}

/// A reduction of sequences.
pub trait Folder<T>: Send + Sync {
    /// Whether `values` may be reduced to `to`.
    spec fn may_fold(&self, values: Seq<Arc<T>>, to: Option<Arc<T>>) -> bool;

    /// Reduces a sequence.
    fn fold(&self, values: Vec<Arc<T>>) -> (r: Option<Arc<T>>)
        ensures
            self.may_fold(values@, r),
    ;
}

/// Whether `f` may give this list for `value`.
pub open spec fn gives_shared_list<T, F: Fn(Arc<T>) -> Vec<Arc<T>>>(
    f: F,
    value: T,
    list: Seq<Arc<T>>,
) -> bool {
    exists|v: Vec<Arc<T>>| v@ == list && #[trigger] f.ensures((Arc::new(value),), v)
}

/// Whether `f` may give these values for `value`.
pub open spec fn gives_list<T, F: Fn(&T) -> Vec<T>>(f: F, value: T, list: Seq<Arc<T>>) -> bool {
    exists|v: Vec<T>| shared(v@) == list && #[trigger] f.ensures((&value,), v)
}

/// Whether `f` may give this key for `value`.
pub open spec fn gives_key<T, K: QueryKey, F: Fn(&T) -> K>(
    f: F,
    value: T,
    key: KeyValue,
) -> bool {
    exists|k: K| k.key_value() == key && #[trigger] f.ensures((&value,), k)
}

/// Whether `f` may reduce `values` to `to`.
pub open spec fn reduces<T, F: Fn(Vec<Arc<T>>) -> Option<Arc<T>>>(
    f: F,
    values: Seq<Arc<T>>,
    to: Option<Arc<T>>,
) -> bool {
    exists|v: Vec<Arc<T>>| v@ == values && #[trigger] f.ensures((v,), to)
}

/// A function as a test.
#[verifier::reject_recursive_types(T)]
#[verifier::reject_recursive_types(F)]
struct TestFn<T, F: Fn(&T) -> bool> {
    f: F,
    marker: PhantomData<T>,
}

impl<T, F: Fn(&T) -> bool> TestFn<T, F> {
    #[verifier::type_invariant]
    spec fn inv(self) -> bool {
        forall|value: &T| #[trigger] self.f.requires((value,))
    }
}

impl<T: Send + Sync, F: Fn(&T) -> bool + Send + Sync> Test<T> for TestFn<T, F> {
    closed spec fn may_answer(&self, value: T, answer: bool) -> bool {
        self.f.ensures((&value,), answer)
    }

    fn test(&self, value: &T) -> (r: bool) {
        proof {
            use_type_invariant(self);
        }
        (self.f)(value)
    }
}

/// A function on shared values as a replacement.
#[verifier::reject_recursive_types(T)]
#[verifier::reject_recursive_types(F)]
struct MapArcFn<T, F: Fn(Arc<T>) -> Arc<T>> {
    f: F,
    marker: PhantomData<T>,
}

impl<T, F: Fn(Arc<T>) -> Arc<T>> MapArcFn<T, F> {
    #[verifier::type_invariant]
    spec fn inv(self) -> bool {
        forall|value: Arc<T>| #[trigger] self.f.requires((value,))
    }
}

impl<T: Send + Sync, F: Fn(Arc<T>) -> Arc<T> + Send + Sync> Mapper<T> for MapArcFn<T, F> {
    closed spec fn may_map(&self, value: T, by: T) -> bool {
        self.f.ensures((Arc::new(value),), Arc::new(by))
    }

    fn map(&self, value: Arc<T>) -> (r: Arc<T>) {
        proof {
            use_type_invariant(self);
        }
        (self.f)(value)
    }
}

/// A function on values as a replacement.
#[verifier::reject_recursive_types(T)]
#[verifier::reject_recursive_types(F)]
struct MapFn<T, F: Fn(&T) -> T> {
    f: F,
    marker: PhantomData<T>,
}

impl<T, F: Fn(&T) -> T> MapFn<T, F> {
    #[verifier::type_invariant]
    spec fn inv(self) -> bool {
        forall|value: &T| #[trigger] self.f.requires((value,))
    }
}

impl<T: Send + Sync, F: Fn(&T) -> T + Send + Sync> Mapper<T> for MapFn<T, F> {
    closed spec fn may_map(&self, value: T, by: T) -> bool {
        self.f.ensures((&value,), by)
    }

    fn map(&self, value: Arc<T>) -> (r: Arc<T>) {
        proof {
            use_type_invariant(self);
        }
        let by = (self.f)(&*value);
        Arc::new(by)
    }
}

/// A function on shared values as a replacement by sequences.
#[verifier::reject_recursive_types(T)]
#[verifier::reject_recursive_types(F)]
struct FlatMapArcFn<T, F: Fn(Arc<T>) -> Vec<Arc<T>>> {
    f: F,
    marker: PhantomData<T>,
}

impl<T, F: Fn(Arc<T>) -> Vec<Arc<T>>> FlatMapArcFn<T, F> {
    #[verifier::type_invariant]
    spec fn inv(self) -> bool {
        forall|value: Arc<T>| #[trigger] self.f.requires((value,))
    }
}

impl<T: Send + Sync, F: Fn(Arc<T>) -> Vec<Arc<T>> + Send + Sync> FlatMapper<
    T,
> for FlatMapArcFn<T, F> {
    closed spec fn may_map(&self, value: T, by: Seq<Arc<T>>) -> bool {
        gives_shared_list::<T, F>(self.f, value, by)
    }

    fn flat_map(&self, value: Arc<T>) -> (r: Vec<Arc<T>>) {
        proof {
            use_type_invariant(self);
        }
        (self.f)(value)
    }
}

/// A function on values as a replacement by sequences.
#[verifier::reject_recursive_types(T)]
#[verifier::reject_recursive_types(F)]
struct FlatMapFn<T, F: Fn(&T) -> Vec<T>> {
    f: F,
    marker: PhantomData<T>,
}

impl<T, F: Fn(&T) -> Vec<T>> FlatMapFn<T, F> {
    #[verifier::type_invariant]
    spec fn inv(self) -> bool {
        forall|value: &T| #[trigger] self.f.requires((value,))
    }
}

/// The values, shared.
pub open spec fn shared<T>(values: Seq<T>) -> Seq<Arc<T>> {
    Seq::new(values.len(), |i: int| Arc::new(values[i]))
}

/// Shares values.
fn share<T>(values: Vec<T>) -> (r: Vec<Arc<T>>)
    ensures
        r@ == shared(values@),
{
    let ghost all = values@;
    let mut r: Vec<Arc<T>> = Vec::new();
    for value in it: values
        invariant
            it.seq() == all,
            r@ =~= shared(all).take(it.index() as int),
    {
        r.push(Arc::new(value));
    }
    r
}

impl<T: Send + Sync, F: Fn(&T) -> Vec<T> + Send + Sync> FlatMapper<T> for FlatMapFn<T, F> {
    closed spec fn may_map(&self, value: T, by: Seq<Arc<T>>) -> bool {
        gives_list::<T, F>(self.f, value, by)
    }

    fn flat_map(&self, value: Arc<T>) -> (r: Vec<Arc<T>>) {
        proof {
            use_type_invariant(self);
        }
        let list = (self.f)(&*value);
        share(list)
    }
}

/// Whatever `f` says of two values, it is what `order` says.
pub open spec fn compares_as<T, F: Fn(&Arc<T>, &Arc<T>) -> NumberOrder>(
    f: F,
    order: spec_fn(T, T) -> NumberOrder,
) -> bool {
    forall|a: &Arc<T>, b: &Arc<T>, said: NumberOrder| #[trigger]
        f.ensures((a, b), said) ==> said == order(**a, **b)
}

/// `f` compares any two values, as a total order does up to ties.
pub open spec fn is_comparison<T, F: Fn(&Arc<T>, &Arc<T>) -> NumberOrder>(f: F) -> bool {
    &&& forall|a: &Arc<T>, b: &Arc<T>| #[trigger] f.requires((a, b))
    &&& exists|order: spec_fn(T, T) -> NumberOrder| #[trigger]
        compares_as::<T, F>(f, order) && crate::predicate::stable_order::is_total(order)
}

/// An order of values, as an order of positions.
pub open spec fn at<T>(
    values: Seq<Arc<T>>,
    order: spec_fn(T, T) -> NumberOrder,
) -> spec_fn(int, int) -> NumberOrder {
    |i: int, j: int| order(*values[i], *values[j])
}

/// `f` said something of the two values.
pub open spec fn has_compared<T, F: Fn(&Arc<T>, &Arc<T>) -> NumberOrder>(
    f: F,
    a: Arc<T>,
    b: Arc<T>,
) -> bool {
    exists|said: NumberOrder| #[trigger] f.ensures((&a, &b), said)
}

/// `f` has compared each value with the one after it, one way or the other.
pub open spec fn neighbours_compared<T, F: Fn(&Arc<T>, &Arc<T>) -> NumberOrder>(
    f: F,
    values: Seq<Arc<T>>,
    positions: Seq<int>,
) -> bool {
    forall|i: int, j: int|
        0 <= i && j == i + 1 && j < positions.len() ==> has_compared(
            f,
            values[#[trigger] positions[i]],
            values[#[trigger] positions[j]],
        ) || has_compared(f, values[positions[j]], values[positions[i]])
}

/// The positions are in the order of `f`, and those that tie keep theirs.
pub open spec fn sorted_by<T, F: Fn(&Arc<T>, &Arc<T>) -> NumberOrder>(
    f: F,
    values: Seq<Arc<T>>,
    positions: Seq<int>,
) -> bool {
    &&& neighbours_compared(f, values, positions)
    &&& exists|order: spec_fn(T, T) -> NumberOrder| #[trigger]
        compares_as::<T, F>(f, order) && crate::predicate::stable_order::is_total(order)
            && is_arrangement(positions, values.len(), at(values, order))
}

/// A function as a way to sort.
#[verifier::reject_recursive_types(T)]
#[verifier::reject_recursive_types(F)]
struct CompareFn<T, F: Fn(&Arc<T>, &Arc<T>) -> NumberOrder> {
    f: F,
    marker: PhantomData<T>,
}

impl<T, F: Fn(&Arc<T>, &Arc<T>) -> NumberOrder> CompareFn<T, F> {
    #[verifier::type_invariant]
    spec fn inv(self) -> bool {
        is_comparison::<T, F>(self.f)
    }
}

/// Values and what compares them.
#[verifier::reject_recursive_types(T)]
#[verifier::reject_recursive_types(F)]
struct ComparedValues<'a, T, F: Fn(&Arc<T>, &Arc<T>) -> NumberOrder> {
    values: &'a Vec<Arc<T>>,
    f: &'a F,
    order: Ghost<spec_fn(T, T) -> NumberOrder>,
}

impl<'a, T, F: Fn(&Arc<T>, &Arc<T>) -> NumberOrder> ComparedValues<'a, T, F> {
    #[verifier::type_invariant]
    spec fn inv(self) -> bool {
        &&& forall|a: &Arc<T>, b: &Arc<T>| #[trigger] self.f.requires((a, b))
        &&& compares_as::<T, F>(*self.f, self.order@)
    }
}

impl<'a, T, F: Fn(&Arc<T>, &Arc<T>) -> NumberOrder> Positions for ComparedValues<'a, T, F> {
    closed spec fn size(&self) -> nat {
        self.values@.len()
    }

    closed spec fn order(&self, i: int, j: int) -> NumberOrder {
        (self.order@)(*self.values@[i], *self.values@[j])
    }

    closed spec fn seen(&self, i: int, j: int) -> bool {
        has_compared(*self.f, self.values@[i], self.values@[j])
    }

    fn compare_at(&self, i: usize, j: usize) -> (r: NumberOrder) {
        proof {
            use_type_invariant(self);
        }
        let r = (self.f)(&self.values[i], &self.values[j]);
        assert(self.f.ensures((&self.values@[i as int], &self.values@[j as int]), r));
        r
    }
}

impl<T: Send + Sync, F: Fn(&Arc<T>, &Arc<T>) -> NumberOrder + Send + Sync> Sorter<
    T,
> for CompareFn<T, F> {
    closed spec fn may_sort(&self, values: Seq<Arc<T>>, positions: Seq<int>) -> bool {
        sorted_by(self.f, values, positions)
    }

    fn sort(&self, values: &Vec<Arc<T>>) -> (r: Vec<usize>) {
        proof {
            use_type_invariant(self);
        }
        let ghost order = choose|order: spec_fn(T, T) -> NumberOrder| #[trigger]
            compares_as::<T, F>(self.f, order) && crate::predicate::stable_order::is_total(order);
        let compared: ComparedValues<T, F> = ComparedValues {
            values,
            f: &self.f,
            order: Ghost(order),
        };
        proof {
            let by_position = |i: int, j: int| compared.order(i, j);
            assert forall|i: int, j: int| #[trigger] by_position(i, j) == order(
                *values@[i],
                *values@[j],
            ) by {}
            assert(crate::predicate::stable_order::is_total(by_position));
        }
        let r = stable_order(&compared, values.len());
        proof {
            lemma_arrangement(&compared, r@, at(values@, order));
            let places = ints(r@);
            assert forall|i: int, j: int|
                0 <= i && j == i + 1 && j < places.len() implies has_compared(
                self.f,
                values@[#[trigger] places[i]],
                values@[#[trigger] places[j]],
            ) || has_compared(self.f, values@[places[j]], values@[places[i]]) by {
                assert(crate::predicate::stable_order::linked(
                    &compared,
                    r@[i] as int,
                    r@[j] as int,
                ));
            }
            assert(compares_as::<T, F>(self.f, order));
        }
        r
    }
}

/// Any two keys compare, and as a total order does up to ties.
pub open spec fn keys_are_ordered<K: FieldOrd>() -> bool {
    &&& forall|a: K, b: K| #[trigger] a.order(b) is Some
    &&& crate::predicate::stable_order::is_total(|a: K, b: K| a.order(b)->Some_0)
}

/// Whether `f` may give these keys.
pub open spec fn gives_keys<T, K, F: Fn(&T) -> K>(
    f: F,
    values: Seq<Arc<T>>,
    keys: Seq<K>,
) -> bool {
    keys.len() == values.len() && forall|i: int|
        0 <= i < values.len() ==> f.ensures((&*values[i],), #[trigger] keys[i])
}

/// The order of keys, as an order of positions.
pub open spec fn key_order<K: FieldOrd>(keys: Seq<K>) -> spec_fn(int, int) -> NumberOrder {
    |i: int, j: int| keys[i].order(keys[j])->Some_0
}

/// The positions are in the order of the keys that `f` gives, and those that tie keep
/// theirs.
pub open spec fn sorted_by_key<T, K: FieldOrd, F: Fn(&T) -> K>(
    f: F,
    values: Seq<Arc<T>>,
    positions: Seq<int>,
) -> bool {
    exists|keys: Seq<K>| #[trigger]
        gives_keys(f, values, keys) && is_arrangement(positions, values.len(), key_order(keys))
}

/// A function to keys as a way to sort.
#[verifier::reject_recursive_types(T)]
#[verifier::reject_recursive_types(K)]
#[verifier::reject_recursive_types(F)]
struct CompareKeyFn<T, K: FieldOrd, F: Fn(&T) -> K> {
    f: F,
    marker: PhantomData<T>,
}

impl<T, K: FieldOrd, F: Fn(&T) -> K> CompareKeyFn<T, K, F> {
    #[verifier::type_invariant]
    spec fn inv(self) -> bool {
        &&& forall|value: &T| #[trigger] self.f.requires((value,))
        &&& keys_are_ordered::<K>()
    }
}

/// Keys to sort by.
#[verifier::reject_recursive_types(K)]
struct Keys<'a, K: FieldOrd> {
    keys: &'a Vec<K>,
}

impl<'a, K: FieldOrd> Keys<'a, K> {
    #[verifier::type_invariant]
    spec fn inv(self) -> bool {
        keys_are_ordered::<K>()
    }
}

impl<'a, K: FieldOrd> Positions for Keys<'a, K> {
    closed spec fn size(&self) -> nat {
        self.keys@.len()
    }

    closed spec fn order(&self, i: int, j: int) -> NumberOrder {
        self.keys@[i].order(self.keys@[j])->Some_0
    }

    closed spec fn seen(&self, i: int, j: int) -> bool {
        true
    }

    fn compare_at(&self, i: usize, j: usize) -> (r: NumberOrder) {
        proof {
            use_type_invariant(self);
        }
        match self.keys[i].compare(&self.keys[j]) {
            Some(order) => order,
            None => NumberOrder::Equal,
        }
    }
}

impl<T: Send + Sync, K: FieldOrd, F: Fn(&T) -> K + Send + Sync> Sorter<T> for CompareKeyFn<
    T,
    K,
    F,
> {
    closed spec fn may_sort(&self, values: Seq<Arc<T>>, positions: Seq<int>) -> bool {
        sorted_by_key::<T, K, F>(self.f, values, positions)
    }

    fn sort(&self, values: &Vec<Arc<T>>) -> (r: Vec<usize>) {
        proof {
            use_type_invariant(self);
        }
        let mut keys: Vec<K> = Vec::new();
        let mut i: usize = 0;
        while i < values.len()
            invariant
                i <= values@.len(),
                keys@.len() == i,
                forall|value: &T| #[trigger] self.f.requires((value,)),
                forall|k: int|
                    0 <= k < i ==> self.f.ensures((&*values@[k],), #[trigger] keys@[k]),
            decreases values@.len() - i,
        {
            let key = (self.f)(&*values[i]);
            keys.push(key);
            i += 1;
        }
        let ordered: Keys<K> = Keys { keys: &keys };
        proof {
            let by_key = |a: K, b: K| a.order(b)->Some_0;
            let by_position = |i: int, j: int| ordered.order(i, j);
            assert forall|i: int, j: int| #[trigger] by_position(i, j) == by_key(
                keys@[i],
                keys@[j],
            ) by {}
            assert(crate::predicate::stable_order::is_total(by_position));
        }
        let r = stable_order(&ordered, keys.len());
        proof {
            lemma_arrangement(&ordered, r@, key_order(keys@));
            assert(gives_keys(self.f, values@, keys@));
        }
        r
    }
}

/// A function to keys as a key.
#[verifier::reject_recursive_types(T)]
#[verifier::reject_recursive_types(K)]
#[verifier::reject_recursive_types(F)]
struct KeyFn<T, K: QueryKey, F: Fn(&T) -> K> {
    f: F,
    marker: PhantomData<T>,
}

impl<T, K: QueryKey, F: Fn(&T) -> K> KeyFn<T, K, F> {
    #[verifier::type_invariant]
    spec fn inv(self) -> bool {
        forall|value: &T| #[trigger] self.f.requires((value,))
    }
}

impl<T: Send + Sync, K: QueryKey, F: Fn(&T) -> K + Send + Sync> Keyer<T> for KeyFn<T, K, F> {
    closed spec fn may_key(&self, value: T, key: KeyValue) -> bool {
        gives_key::<T, K, F>(self.f, value, key)
    }

    fn classes(&self, values: &Vec<Arc<T>>) -> (r: Vec<usize>) {
        proof {
            use_type_invariant(self);
        }
        let mut keys: Vec<K> = Vec::new();
        let mut i: usize = 0;
        while i < values.len()
            invariant
                i <= values@.len(),
                keys@.len() == i,
                forall|value: &T| #[trigger] self.f.requires((value,)),
                forall|k: int|
                    0 <= k < i ==> self.f.ensures((&*values@[k],), #[trigger] keys@[k]),
            decreases values@.len() - i,
        {
            let key = (self.f)(&*values[i]);
            keys.push(key);
            i += 1;
        }
        let r = classes_of(&keys);
        let ghost all = crate::predicate::query_key::key_values(keys@);
        assert forall|k: int| 0 <= k < all.len() implies self.may_key(
            *values@[k],
            #[trigger] all[k],
        ) by {
            assert(self.f.ensures((&*values@[k],), keys@[k]));
        }
        assert(crate::predicate::query_key::are_classes(r@, all));
        r
    }
}

/// A function as a reduction.
#[verifier::reject_recursive_types(T)]
#[verifier::reject_recursive_types(F)]
struct FoldFn<T, F: Fn(Vec<Arc<T>>) -> Option<Arc<T>>> {
    f: F,
    marker: PhantomData<T>,
}

impl<T, F: Fn(Vec<Arc<T>>) -> Option<Arc<T>>> FoldFn<T, F> {
    #[verifier::type_invariant]
    spec fn inv(self) -> bool {
        forall|values: Vec<Arc<T>>| #[trigger] self.f.requires((values,))
    }
}

impl<T: Send + Sync, F: Fn(Vec<Arc<T>>) -> Option<Arc<T>> + Send + Sync> Folder<
    T,
> for FoldFn<T, F> {
    closed spec fn may_fold(&self, values: Seq<Arc<T>>, to: Option<Arc<T>>) -> bool {
        reduces::<T, F>(self.f, values, to)
    }

    fn fold(&self, values: Vec<Arc<T>>) -> (r: Option<Arc<T>>) {
        proof {
            use_type_invariant(self);
        }
        (self.f)(values)
    }
}

/// One operation over a sequence of shared values.
#[non_exhaustive]
#[verifier::reject_recursive_types(T)]
pub enum MemQ<T: Cacheable> {
    /// Keeps the values that pass a test.
    Filter(Filter<T>),
    /// Replaces each value by another.
    MapEach(MapEach<T>),
    /// Replaces each value by a sequence.
    FlatMap(FlatMap<T>),
    /// Keeps at most the first values.
    Take(Take),
    /// Drops the first values.
    Skip(Skip),
    /// Appends values.
    Chain(Chain<T>),
    /// Sorts the values.
    Sort(Sort<T>),
    /// Keeps the first value of each key.
    Unique(Unique<T>),
    /// Puts the values of a key together, the keys in the order of their first values.
    GroupBy(GroupBy<T>),
    /// Moves the values that pass a test to the front.
    Partition(Partition<T>),
    /// Reduces the sequence to one value or none.
    Fold(Fold<T>),
}

/// What a filter asks.
#[verifier::reject_recursive_types(T)]
enum FilterKind<T: Cacheable> {
    Basic(BasicPredicate<T>),
    Closure(Arc<Box<dyn Test<T>>>),
}

/// The test of a filter.
#[verifier::reject_recursive_types(T)]
pub struct Filter<T: Cacheable> {
    kind: FilterKind<T>,
}

impl<T: Cacheable> Filter<T> {
    /// Whether the filter may give this answer for `value`.
    pub closed spec fn may_answer(&self, value: T, answer: bool) -> bool {
        match self.kind {
            FilterKind::Basic(predicate) => answer == predicate.holds(value),
            FilterKind::Closure(test) => test.may_answer(value, answer),
        }
    }

    /// The filter that asks a predicate.
    pub closed spec fn basic(predicate: BasicPredicate<T>) -> Self {
        Filter { kind: FilterKind::Basic(predicate) }
    }

    /// Tests a value.
    fn evaluate(&self, value: &T) -> (r: bool)
        ensures
            self.may_answer(*value, r),
    {
        match &self.kind {
            FilterKind::Basic(predicate) => predicate.evaluate(value),
            FilterKind::Closure(test) => test.test(value),
        }
    }
}

/// A filter that asks a predicate answers as the predicate does.
pub proof fn basic_filter_asks_the_predicate<T: Cacheable>(
    predicate: BasicPredicate<T>,
    value: T,
    answer: bool,
)
    ensures
        Filter::basic(predicate).may_answer(value, answer) == (answer == predicate.holds(value)),
{
}

/// The replacement of values.
#[verifier::reject_recursive_types(T)]
pub struct MapEach<T: Cacheable> {
    map: Arc<Box<dyn Mapper<T>>>,
}

impl<T: Cacheable> MapEach<T> {
    /// Whether `value` may be replaced by `by`.
    pub closed spec fn may_map(&self, value: T, by: T) -> bool {
        self.map.may_map(value, by)
    }
}

/// The replacement of values by sequences.
#[verifier::reject_recursive_types(T)]
pub struct FlatMap<T: Cacheable> {
    flat_map: Arc<Box<dyn FlatMapper<T>>>,
}

impl<T: Cacheable> FlatMap<T> {
    /// Whether `value` may be replaced by `by`.
    pub closed spec fn may_map(&self, value: T, by: Seq<Arc<T>>) -> bool {
        self.flat_map.may_map(value, by)
    }
}

/// The number of values to keep.
#[derive(Debug, Clone, Copy)]
pub struct Take {
    count: usize,
}

impl Take {
    /// The number of values.
    pub closed spec fn spec_count(&self) -> int {
        self.count as int
    }

    /// The number is no less than none.
    pub proof fn lemma_count(&self)
        ensures
            0 <= self.spec_count(),
    {
    }
}

/// The number of values to drop.
#[derive(Debug, Clone, Copy)]
pub struct Skip {
    count: usize,
}

impl Skip {
    /// The number of values.
    pub closed spec fn spec_count(&self) -> int {
        self.count as int
    }

    /// The number is no less than none.
    pub proof fn lemma_count(&self)
        ensures
            0 <= self.spec_count(),
    {
    }
}

/// The values to append.
#[verifier::reject_recursive_types(T)]
pub struct Chain<T: Cacheable> {
    values: Vec<Arc<T>>,
}

impl<T: Cacheable> Chain<T> {
    /// The values.
    pub closed spec fn appended(&self) -> Seq<Arc<T>> {
        self.values@
    }
}

/// How to sort.
#[verifier::reject_recursive_types(T)]
pub struct Sort<T: Cacheable> {
    sorter: Arc<Box<dyn Sorter<T>>>,
}

impl<T: Cacheable> Sort<T> {
    /// Whether the values may be put in the order of these positions.
    pub closed spec fn may_sort(&self, values: Seq<Arc<T>>, positions: Seq<int>) -> bool {
        self.sorter.may_sort(values, positions)
    }
}

/// The key of which one value is kept.
#[verifier::reject_recursive_types(T)]
pub struct Unique<T: Cacheable> {
    key: Arc<Box<dyn Keyer<T>>>,
}

impl<T: Cacheable> Unique<T> {
    /// Whether `key` may be the key of `value`.
    pub closed spec fn may_key(&self, value: T, key: KeyValue) -> bool {
        self.key.may_key(value, key)
    }
}

/// The key to group by.
#[verifier::reject_recursive_types(T)]
pub struct GroupBy<T: Cacheable> {
    key: Arc<Box<dyn Keyer<T>>>,
}

impl<T: Cacheable> GroupBy<T> {
    /// Whether `key` may be the key of `value`.
    pub closed spec fn may_key(&self, value: T, key: KeyValue) -> bool {
        self.key.may_key(value, key)
    }
}

/// The test of a partition.
#[verifier::reject_recursive_types(T)]
pub struct Partition<T: Cacheable> {
    predicate: Arc<Box<dyn Test<T>>>,
}

impl<T: Cacheable> Partition<T> {
    /// Whether the test may give this answer for `value`.
    pub closed spec fn may_answer(&self, value: T, answer: bool) -> bool {
        self.predicate.may_answer(value, answer)
    }
}

/// The reduction of a sequence.
#[verifier::reject_recursive_types(T)]
pub struct Fold<T: Cacheable> {
    fold: Arc<Box<dyn Folder<T>>>,
}

impl<T: Cacheable> Fold<T> {
    /// Whether `values` may be reduced to `to`.
    pub closed spec fn may_fold(&self, values: Seq<Arc<T>>, to: Option<Arc<T>>) -> bool {
        self.fold.may_fold(values, to)
    }
}

impl<T: Cacheable> Clone for MapEach<T> {
    fn clone(&self) -> (r: Self)
        ensures
            r == *self,
    {
        MapEach { map: self.map.clone() }
    }
}

impl<T: Cacheable> Clone for FlatMap<T> {
    fn clone(&self) -> (r: Self)
        ensures
            r == *self,
    {
        FlatMap { flat_map: self.flat_map.clone() }
    }
}

impl<T: Cacheable> Clone for Sort<T> {
    fn clone(&self) -> (r: Self)
        ensures
            r == *self,
    {
        Sort { sorter: self.sorter.clone() }
    }
}

impl<T: Cacheable> Clone for Unique<T> {
    fn clone(&self) -> (r: Self)
        ensures
            r == *self,
    {
        Unique { key: self.key.clone() }
    }
}

impl<T: Cacheable> Clone for GroupBy<T> {
    fn clone(&self) -> (r: Self)
        ensures
            r == *self,
    {
        GroupBy { key: self.key.clone() }
    }
}

impl<T: Cacheable> Clone for Partition<T> {
    fn clone(&self) -> (r: Self)
        ensures
            r == *self,
    {
        Partition { predicate: self.predicate.clone() }
    }
}

impl<T: Cacheable> Clone for Fold<T> {
    fn clone(&self) -> (r: Self)
        ensures
            r == *self,
    {
        Fold { fold: self.fold.clone() }
    }
}

impl<T: Cacheable> Clone for Filter<T> {
    fn clone(&self) -> (r: Self)
        ensures
            forall|value: T, answer: bool| #[trigger]
                r.may_answer(value, answer) == self.may_answer(value, answer),
    {
        match &self.kind {
            FilterKind::Basic(predicate) => Filter { kind: FilterKind::Basic(predicate.clone()) },
            FilterKind::Closure(test) => Filter { kind: FilterKind::Closure(test.clone()) },
        }
    }
}

impl<T: Cacheable> Clone for Chain<T> {
    fn clone(&self) -> (r: Self)
        ensures
            r.appended() == self.appended(),
    {
        let mut values: Vec<Arc<T>> = Vec::new();
        let mut i: usize = 0;
        while i < self.values.len()
            invariant
                i <= self.values@.len(),
                values@ == self.values@.take(i as int),
            decreases self.values@.len() - i,
        {
            values.push(self.values[i].clone());
            i += 1;
        }
        assert(self.values@.take(i as int) =~= self.values@);
        Chain { values }
    }
}

/// Whether the operations are the same: of filters and appended values, what they ask and
/// append.
pub open spec fn same_operation<T: Cacheable>(a: MemQ<T>, b: MemQ<T>) -> bool {
    match (a, b) {
        (MemQ::Filter(x), MemQ::Filter(y)) => forall|value: T, answer: bool| #[trigger]
            x.may_answer(value, answer) == y.may_answer(value, answer),
        (MemQ::Chain(x), MemQ::Chain(y)) => x.appended() == y.appended(),
        (MemQ::Filter(_), _) | (MemQ::Chain(_), _) => false,
        _ => a == b,
    }
}

impl<T: Cacheable> Clone for MemQ<T> {
    fn clone(&self) -> (r: Self)
        ensures
            same_operation(*self, r),
    {
        match self {
            MemQ::Filter(op) => MemQ::Filter(op.clone()),
            MemQ::MapEach(op) => MemQ::MapEach(op.clone()),
            MemQ::FlatMap(op) => MemQ::FlatMap(op.clone()),
            MemQ::Take(op) => MemQ::Take(*op),
            MemQ::Skip(op) => MemQ::Skip(*op),
            MemQ::Chain(op) => MemQ::Chain(op.clone()),
            MemQ::Sort(op) => MemQ::Sort(op.clone()),
            MemQ::Unique(op) => MemQ::Unique(op.clone()),
            MemQ::GroupBy(op) => MemQ::GroupBy(op.clone()),
            MemQ::Partition(op) => MemQ::Partition(op.clone()),
            MemQ::Fold(op) => MemQ::Fold(op.clone()),
        }
    }
}

/// The values whose mark is `side`, in order.
pub open spec fn marked<A>(values: Seq<A>, marks: Seq<bool>, side: bool) -> Seq<A>
    decreases values.len(),
{
    if values.len() == 0 {
        Seq::empty()
    } else {
        let before = marked(values.drop_last(), marks.drop_last(), side);
        if marks.last() == side {
            before.push(values.last())
        } else {
            before
        }
    }
}

/// Sequences, one after the other.
pub open spec fn joined<A>(parts: Seq<Seq<A>>) -> Seq<A>
    decreases parts.len(),
{
    if parts.len() == 0 {
        Seq::empty()
    } else {
        joined(parts.drop_last()) + parts.last()
    }
}

/// Which keys stand at the first position that holds them.
pub open spec fn firsts(keys: Seq<KeyValue>) -> Seq<bool> {
    Seq::new(keys.len(), |i: int| !keys.take(i).contains(keys[i]))
}

/// `out` holds the values in the order of `positions`.
pub open spec fn arranged<A>(values: Seq<A>, positions: Seq<int>) -> Seq<A> {
    Seq::new(positions.len(), |i: int| values[positions[i]])
}

/// Positions as integers.
pub open spec fn ints(positions: Seq<usize>) -> Seq<int> {
    positions.map_values(|k: usize| k as int)
}

/// `positions` lists the positions below `size`, each once.
pub open spec fn is_permutation(positions: Seq<int>, size: nat) -> bool {
    &&& positions.len() == size
    &&& forall|i: int| 0 <= i < positions.len() ==> 0 <= #[trigger] positions[i] < size
    &&& forall|k: int| 0 <= k < size ==> #[trigger] positions.contains(k)
}

/// `positions` lists the positions below `size`, each once, so that each comes before
/// the next: the less first, and of those that tie the earlier one.
pub open spec fn is_arrangement(
    positions: Seq<int>,
    size: nat,
    order: spec_fn(int, int) -> NumberOrder,
) -> bool {
    &&& is_permutation(positions, size)
    &&& forall|i: int, j: int|
        0 <= i < j < positions.len() ==> order(
            #[trigger] positions[i],
            #[trigger] positions[j],
        ) == NumberOrder::Less || (order(positions[i], positions[j]) == NumberOrder::Equal
            && positions[i] < positions[j])
}

/// The position of the first key that is the same, as an order of positions.
pub open spec fn by_first_same(keys: Seq<KeyValue>) -> spec_fn(int, int) -> NumberOrder {
    |i: int, j: int|
        crate::json::binary64::order_of(
            crate::predicate::query_key::first_same(keys, i),
            crate::predicate::query_key::first_same(keys, j),
        )
}

/// Whether the filter may give these answers.
pub open spec fn filter_marks<T: Cacheable>(
    op: Filter<T>,
    values: Seq<Arc<T>>,
    marks: Seq<bool>,
) -> bool {
    marks.len() == values.len() && forall|i: int|
        0 <= i < values.len() ==> op.may_answer(*values[i], #[trigger] marks[i])
}

/// Whether the partition may give these answers.
pub open spec fn partition_marks<T: Cacheable>(
    op: Partition<T>,
    values: Seq<Arc<T>>,
    marks: Seq<bool>,
) -> bool {
    marks.len() == values.len() && forall|i: int|
        0 <= i < values.len() ==> op.may_answer(*values[i], #[trigger] marks[i])
}

/// Whether these may be the replacements.
pub open spec fn flat_map_parts<T: Cacheable>(
    op: FlatMap<T>,
    values: Seq<Arc<T>>,
    parts: Seq<Seq<Arc<T>>>,
) -> bool {
    parts.len() == values.len() && forall|i: int|
        0 <= i < values.len() ==> op.may_map(*values[i], #[trigger] parts[i])
}

/// Whether these may be the keys.
pub open spec fn unique_keys<T: Cacheable>(
    op: Unique<T>,
    values: Seq<Arc<T>>,
    keys: Seq<KeyValue>,
) -> bool {
    keys.len() == values.len() && forall|i: int|
        0 <= i < values.len() ==> op.may_key(*values[i], #[trigger] keys[i])
}

/// Whether these may be the keys.
pub open spec fn group_keys<T: Cacheable>(
    op: GroupBy<T>,
    values: Seq<Arc<T>>,
    keys: Seq<KeyValue>,
) -> bool {
    keys.len() == values.len() && forall|i: int|
        0 <= i < values.len() ==> op.may_key(*values[i], #[trigger] keys[i])
}

/// Whether a filter may leave `out` of `values`.
pub open spec fn filtered<T: Cacheable>(
    op: Filter<T>,
    values: Seq<Arc<T>>,
    out: Seq<Arc<T>>,
) -> bool {
    exists|marks: Seq<bool>| #[trigger]
        filter_marks(op, values, marks) && out == marked(values, marks, true)
}

/// Whether `values` may be replaced by `out`, one by one.
pub open spec fn mapped<T: Cacheable>(
    op: MapEach<T>,
    values: Seq<Arc<T>>,
    out: Seq<Arc<T>>,
) -> bool {
    out.len() == values.len() && forall|i: int|
        0 <= i < values.len() ==> op.may_map(*values[i], *#[trigger] out[i])
}

/// Whether `values` may be replaced by sequences that together are `out`.
pub open spec fn flat_mapped<T: Cacheable>(
    op: FlatMap<T>,
    values: Seq<Arc<T>>,
    out: Seq<Arc<T>>,
) -> bool {
    exists|parts: Seq<Seq<Arc<T>>>| #[trigger]
        flat_map_parts(op, values, parts) && out == joined(parts)
}

/// Whether `out` is `values` in order.
pub open spec fn sorted<T: Cacheable>(
    op: Sort<T>,
    values: Seq<Arc<T>>,
    out: Seq<Arc<T>>,
) -> bool {
    exists|positions: Seq<int>| #[trigger]
        op.may_sort(values, positions) && is_permutation(positions, values.len()) && out
            == arranged(values, positions)
}

/// Whether `out` may be the first value of each key.
pub open spec fn made_unique<T: Cacheable>(
    op: Unique<T>,
    values: Seq<Arc<T>>,
    out: Seq<Arc<T>>,
) -> bool {
    exists|keys: Seq<KeyValue>| #[trigger]
        unique_keys(op, values, keys) && out == marked(values, firsts(keys), true)
}

/// Whether `out` may be the values key by key.
pub open spec fn grouped<T: Cacheable>(
    op: GroupBy<T>,
    values: Seq<Arc<T>>,
    out: Seq<Arc<T>>,
) -> bool {
    exists|keys: Seq<KeyValue>, positions: Seq<int>|
        #![trigger group_keys(op, values, keys), arranged(values, positions)]
        group_keys(op, values, keys) && is_arrangement(
            positions,
            values.len(),
            by_first_same(keys),
        ) && out == arranged(values, positions)
}

/// Whether `out` may be the values that pass, and then the others.
pub open spec fn partitioned<T: Cacheable>(
    op: Partition<T>,
    values: Seq<Arc<T>>,
    out: Seq<Arc<T>>,
) -> bool {
    exists|marks: Seq<bool>| #[trigger]
        partition_marks(op, values, marks) && out == marked(values, marks, true) + marked(
            values,
            marks,
            false,
        )
}

/// Whether `out` may be what `values` are reduced to.
pub open spec fn folded<T: Cacheable>(
    op: Fold<T>,
    values: Seq<Arc<T>>,
    out: Seq<Arc<T>>,
) -> bool {
    out.len() <= 1 && op.may_fold(
        values,
        if out.len() == 0 {
            None
        } else {
            Some(out[0])
        },
    )
}

/// Whether the operation may turn `values` into `out`.
pub open spec fn step<T: Cacheable>(
    op: MemQ<T>,
    values: Seq<Arc<T>>,
    out: Seq<Arc<T>>,
) -> bool {
    match op {
        MemQ::Filter(op) => filtered(op, values, out),
        MemQ::MapEach(op) => mapped(op, values, out),
        MemQ::FlatMap(op) => flat_mapped(op, values, out),
        MemQ::Take(op) => out == (if op.spec_count() < values.len() {
            values.take(op.spec_count())
        } else {
            values
        }),
        MemQ::Skip(op) => out == (if op.spec_count() < values.len() {
            values.skip(op.spec_count())
        } else {
            Seq::empty()
        }),
        MemQ::Chain(op) => out == values + op.appended(),
        MemQ::Sort(op) => sorted(op, values, out),
        MemQ::Unique(op) => made_unique(op, values, out),
        MemQ::GroupBy(op) => grouped(op, values, out),
        MemQ::Partition(op) => partitioned(op, values, out),
        MemQ::Fold(op) => folded(op, values, out),
    }
}

/// Whether the operations, in order, may turn `values` into `out`.
pub open spec fn outcome<T: Cacheable>(
    ops: Seq<MemQ<T>>,
    values: Seq<Arc<T>>,
    out: Seq<Arc<T>>,
) -> bool
    decreases ops.len(),
{
    if ops.len() == 0 {
        out == values
    } else {
        exists|between: Seq<Arc<T>>|
            outcome(ops.drop_last(), values, between) && #[trigger] step(ops.last(), between, out)
    }
}

/// Keeps the values whose mark is `side`.
fn select<T>(values: &Vec<Arc<T>>, marks: &Vec<bool>, side: bool) -> (r: Vec<Arc<T>>)
    requires
        marks@.len() == values@.len(),
    ensures
        r@ == marked(values@, marks@, side),
{
    let mut r: Vec<Arc<T>> = Vec::new();
    let mut i: usize = 0;
    while i < values.len()
        invariant
            i <= values@.len() == marks@.len(),
            r@ == marked(values@.take(i as int), marks@.take(i as int), side),
        decreases values@.len() - i,
    {
        assert(values@.take(i + 1).drop_last() =~= values@.take(i as int));
        assert(marks@.take(i + 1).drop_last() =~= marks@.take(i as int));
        if marks[i] == side {
            r.push(values[i].clone());
        }
        i += 1;
    }
    assert(values@.take(i as int) =~= values@);
    assert(marks@.take(i as int) =~= marks@);
    r
}

/// Puts values in the order of `positions`.
fn arrange<T>(values: &Vec<Arc<T>>, positions: &Vec<usize>) -> (r: Vec<Arc<T>>)
    requires
        forall|i: int| 0 <= i < positions@.len() ==> #[trigger] positions@[i] < values@.len(),
    ensures
        r@ == arranged(values@, ints(positions@)),
{
    let mut r: Vec<Arc<T>> = Vec::new();
    let mut i: usize = 0;
    while i < positions.len()
        invariant
            i <= positions@.len(),
            forall|i: int| 0 <= i < positions@.len() ==> #[trigger] positions@[i] < values@.len(),
            r@.len() == i,
            forall|k: int| 0 <= k < i ==> #[trigger] r@[k] == values@[positions@[k] as int],
        decreases positions@.len() - i,
    {
        r.push(values[positions[i]].clone());
        i += 1;
    }
    r
}

/// Classes to sort by.
struct Classes<'a> {
    classes: &'a Vec<usize>,
}

impl<'a> Positions for Classes<'a> {
    closed spec fn size(&self) -> nat {
        self.classes@.len()
    }

    closed spec fn order(&self, i: int, j: int) -> NumberOrder {
        crate::json::binary64::order_of(self.classes@[i] as int, self.classes@[j] as int)
    }

    closed spec fn seen(&self, i: int, j: int) -> bool {
        true
    }

    fn compare_at(&self, i: usize, j: usize) -> (r: NumberOrder) {
        let a = self.classes[i];
        let b = self.classes[j];
        if a < b {
            NumberOrder::Less
        } else if a == b {
            NumberOrder::Equal
        } else {
            NumberOrder::Greater
        }
    }
}

/// A list of positions in order is an arrangement.
proof fn lemma_arrangement<P: Positions>(
    p: &P,
    positions: Seq<usize>,
    order: spec_fn(int, int) -> NumberOrder,
)
    requires
        p.size() <= usize::MAX,
        crate::predicate::stable_order::lists_in_order(p, positions, 0, p.size() as int),
        forall|i: int, j: int|
            0 <= i < p.size() && 0 <= j < p.size() ==> #[trigger] p.order(i, j) == order(i, j),
    ensures
        is_arrangement(ints(positions), p.size(), order),
{
    let mapped = ints(positions);
    assert forall|k: int| 0 <= k < p.size() implies #[trigger] mapped.contains(k) by {
        assert(positions.contains(k as usize));
        let w = choose|w: int| 0 <= w < positions.len() && positions[w] == k as usize;
        assert(mapped[w] == k);
    }
    assert forall|i: int, j: int| 0 <= i < j < mapped.len() implies order(
        #[trigger] mapped[i],
        #[trigger] mapped[j],
    ) == NumberOrder::Less || (order(mapped[i], mapped[j]) == NumberOrder::Equal && mapped[i]
        < mapped[j]) by {
        assert(crate::predicate::stable_order::comes_before(
            p,
            positions[i] as int,
            positions[j] as int,
        ));
        assert(p.order(positions[i] as int, positions[j] as int) == order(mapped[i], mapped[j]));
    }
}

/// A key stands first exactly where its class is its own position.
proof fn lemma_first_is_own_class(keys: Seq<KeyValue>, i: int)
    requires
        0 <= i < keys.len(),
    ensures
        (crate::predicate::query_key::first_same(keys, i) == i) == !keys.take(i).contains(keys[i]),
{
    crate::predicate::query_key::lemma_first_index(keys, keys[i], 0, i);
    let f = crate::predicate::query_key::first_same(keys, i);
    if f < i {
        assert(keys.take(i)[f] == keys[i]);
    }
    if keys.take(i).contains(keys[i]) {
        let w = choose|w: int| 0 <= w < i && keys.take(i)[w] == keys[i];
        assert(keys[w] == keys[i]);
    }
}

impl<T: Cacheable> Filter<T> {
    fn run(&self, values: &Vec<Arc<T>>) -> (r: Vec<Arc<T>>)
        ensures
            filtered(*self, values@, r@),
    {
        let mut marks: Vec<bool> = Vec::new();
        let mut i: usize = 0;
        while i < values.len()
            invariant
                i <= values@.len(),
                marks@.len() == i,
                forall|k: int|
                    0 <= k < i ==> self.may_answer(*values@[k], #[trigger] marks@[k]),
            decreases values@.len() - i,
        {
            marks.push(self.evaluate(&*values[i]));
            i += 1;
        }
        assert(filter_marks(*self, values@, marks@));
        select(values, &marks, true)
    }
}

impl<T: Cacheable> MapEach<T> {
    fn run(&self, values: &Vec<Arc<T>>) -> (r: Vec<Arc<T>>)
        ensures
            mapped(*self, values@, r@),
    {
        let mut r: Vec<Arc<T>> = Vec::new();
        let mut i: usize = 0;
        while i < values.len()
            invariant
                i <= values@.len(),
                r@.len() == i,
                forall|k: int| 0 <= k < i ==> self.may_map(*values@[k], *#[trigger] r@[k]),
            decreases values@.len() - i,
        {
            r.push(self.map.map(values[i].clone()));
            i += 1;
        }
        r
    }
}

impl<T: Cacheable> FlatMap<T> {
    fn run(&self, values: &Vec<Arc<T>>) -> (r: Vec<Arc<T>>)
        ensures
            flat_mapped(*self, values@, r@),
    {
        let mut r: Vec<Arc<T>> = Vec::new();
        let ghost mut parts: Seq<Seq<Arc<T>>> = Seq::empty();
        let mut i: usize = 0;
        while i < values.len()
            invariant
                i <= values@.len(),
                parts.len() == i,
                forall|k: int| 0 <= k < i ==> self.may_map(*values@[k], #[trigger] parts[k]),
                r@ == joined(parts),
            decreases values@.len() - i,
        {
            let mut part = self.flat_map.flat_map(values[i].clone());
            proof {
                let longer = parts.push(part@);
                assert(longer.drop_last() =~= parts);
                parts = longer;
            }
            r.append(&mut part);
            i += 1;
        }
        assert(flat_map_parts(*self, values@, parts) && r@ == joined(parts));
        r
    }
}

impl<T: Cacheable> Sort<T> {
    fn run(&self, values: &Vec<Arc<T>>) -> (r: Vec<Arc<T>>)
        ensures
            sorted(*self, values@, r@),
    {
        let positions = self.sorter.sort(values);
        assert forall|i: int| 0 <= i < positions@.len() implies #[trigger] positions@[i]
            < values@.len() by {
            assert(ints(positions@)[i] < values@.len());
        }
        let r = arrange(values, &positions);
        assert(self.may_sort(values@, ints(positions@)));
        r
    }
}

impl<T: Cacheable> Unique<T> {
    fn run(&self, values: &Vec<Arc<T>>) -> (r: Vec<Arc<T>>)
        ensures
            made_unique(*self, values@, r@),
    {
        let classes = self.key.classes(values);
        let ghost keys = choose|keys: Seq<KeyValue>|
            keys.len() == values@.len() && (forall|i: int|
                0 <= i < keys.len() ==> self.key.may_key(*values@[i], #[trigger] keys[i]))
                && #[trigger] crate::predicate::query_key::are_classes(classes@, keys);
        assert(unique_keys(*self, values@, keys));
        let mut marks: Vec<bool> = Vec::new();
        let mut i: usize = 0;
        while i < classes.len()
            invariant
                i <= classes@.len() == keys.len(),
                crate::predicate::query_key::are_classes(classes@, keys),
                marks@ =~= firsts(keys).take(i as int),
            decreases classes@.len() - i,
        {
            proof {
                lemma_first_is_own_class(keys, i as int);
            }
            marks.push(classes[i] == i);
            i += 1;
        }
        assert(marks@ =~= firsts(keys));
        let r = select(values, &marks, true);
        assert(unique_keys(*self, values@, keys) && r@ == marked(values@, firsts(keys), true));
        r
    }
}

impl<T: Cacheable> GroupBy<T> {
    fn run(&self, values: &Vec<Arc<T>>) -> (r: Vec<Arc<T>>)
        ensures
            grouped(*self, values@, r@),
    {
        let classes = self.key.classes(values);
        let ghost keys = choose|keys: Seq<KeyValue>|
            keys.len() == values@.len() && (forall|i: int|
                0 <= i < keys.len() ==> self.key.may_key(*values@[i], #[trigger] keys[i]))
                && #[trigger] crate::predicate::query_key::are_classes(classes@, keys);
        assert(group_keys(*self, values@, keys));
        let ordered = Classes { classes: &classes };
        let positions = stable_order(&ordered, classes.len());
        proof {
            lemma_arrangement(&ordered, positions@, by_first_same(keys));
        }
        let r = arrange(values, &positions);
        let ghost places = ints(positions@);
        assert(group_keys(*self, values@, keys) && is_arrangement(
            places,
            values@.len(),
            by_first_same(keys),
        ) && r@ == arranged(values@, places));
        r
    }
}

impl<T: Cacheable> Partition<T> {
    fn run(&self, values: &Vec<Arc<T>>) -> (r: Vec<Arc<T>>)
        ensures
            partitioned(*self, values@, r@),
    {
        let mut marks: Vec<bool> = Vec::new();
        let mut i: usize = 0;
        while i < values.len()
            invariant
                i <= values@.len(),
                marks@.len() == i,
                forall|k: int|
                    0 <= k < i ==> self.may_answer(*values@[k], #[trigger] marks@[k]),
            decreases values@.len() - i,
        {
            marks.push(self.predicate.test(&*values[i]));
            i += 1;
        }
        assert(partition_marks(*self, values@, marks@));
        let mut matches = select(values, &marks, true);
        let mut misses = select(values, &marks, false);
        matches.append(&mut misses);
        assert(matches@ == marked(values@, marks@, true) + marked(values@, marks@, false));
        matches
    }
}

impl<T: Cacheable + Send + Sync + 'static> MemQ<T> {

    /// Keeps the values that pass `f`, which takes every value: it does not panic.
    pub fn filter<F: Fn(&T) -> bool + Send + Sync + 'static>(f: F) -> (r: Self)
        requires
            forall|value: &T| #[trigger] f.requires((value,)),
        ensures
            r matches MemQ::Filter(op) && forall|value: T, answer: bool| #[trigger]
                op.may_answer(value, answer) == f.ensures((&value,), answer),
    {
        let adapter: TestFn<T, F> = TestFn { f, marker: PhantomData };
        let ghost g = adapter;
        let boxed: Box<dyn Test<T>> = Box::new(adapter);
        assert forall|value: T, answer: bool| #[trigger]
            boxed.may_answer(value, answer) == g.may_answer(value, answer) by {}
        let shared = Arc::new(boxed);
        let op: Filter<T> = Filter { kind: FilterKind::Closure(shared) };
        MemQ::Filter(op)
    }

    /// Keeps the values that pass a predicate.
    pub fn filter_basic(predicate: BasicPredicate<T>) -> (r: Self)
        ensures
            r == MemQ::Filter(Filter::basic(predicate)),
            r matches MemQ::Filter(op) && forall|value: T, answer: bool| #[trigger]
                op.may_answer(value, answer) == (answer == predicate.holds(value)),
    {
        MemQ::Filter(Filter { kind: FilterKind::Basic(predicate) })
    }

    /// Replaces each shared value by another.
    pub fn map_arc<F: Fn(Arc<T>) -> Arc<T> + Send + Sync + 'static>(f: F) -> (r: Self)
        requires
            forall|value: Arc<T>| #[trigger] f.requires((value,)),
        ensures
            r matches MemQ::MapEach(op) && forall|value: T, by: T| #[trigger]
                op.may_map(value, by) == f.ensures((Arc::new(value),), Arc::new(by)),
    {
        let adapter: MapArcFn<T, F> = MapArcFn { f, marker: PhantomData };
        let ghost g = adapter;
        let boxed: Box<dyn Mapper<T>> = Box::new(adapter);
        assert forall|value: T, by: T| #[trigger] boxed.may_map(value, by) == g.may_map(value, by) by {}
        let shared = Arc::new(boxed);
        let op: MapEach<T> = MapEach { map: shared };
        MemQ::MapEach(op)
    }

    /// Replaces each shared value by a sequence.
    pub fn flat_map_arc<F: Fn(Arc<T>) -> Vec<Arc<T>> + Send + Sync + 'static>(f: F) -> (r: Self)
        requires
            forall|value: Arc<T>| #[trigger] f.requires((value,)),
        ensures
            r matches MemQ::FlatMap(op) && forall|value: T, by: Seq<Arc<T>>| #[trigger]
                op.may_map(value, by) == gives_shared_list::<T, F>(f, value, by),
    {
        let adapter: FlatMapArcFn<T, F> = FlatMapArcFn { f, marker: PhantomData };
        let ghost g = adapter;
        let boxed: Box<dyn FlatMapper<T>> = Box::new(adapter);
        assert forall|value: T, by: Seq<Arc<T>>| #[trigger] boxed.may_map(value, by) == g.may_map(value, by) by {}
        let shared = Arc::new(boxed);
        let op: FlatMap<T> = FlatMap { flat_map: shared };
        MemQ::FlatMap(op)
    }

    /// Moves the values that pass `f`, which takes every value, to the front.
    pub fn partition<F: Fn(&T) -> bool + Send + Sync + 'static>(f: F) -> (r: Self)
        requires
            forall|value: &T| #[trigger] f.requires((value,)),
        ensures
            r matches MemQ::Partition(op) && forall|value: T, answer: bool| #[trigger]
                op.may_answer(value, answer) == f.ensures((&value,), answer),
    {
        let adapter: TestFn<T, F> = TestFn { f, marker: PhantomData };
        let ghost g = adapter;
        let boxed: Box<dyn Test<T>> = Box::new(adapter);
        assert forall|value: T, answer: bool| #[trigger] boxed.may_answer(value, answer) == g.may_answer(value, answer) by {}
        let shared = Arc::new(boxed);
        let op: Partition<T> = Partition { predicate: shared };
        MemQ::Partition(op)
    }

    /// Reduces the sequence to one value or none.
    pub fn fold<F: Fn(Vec<Arc<T>>) -> Option<Arc<T>> + Send + Sync + 'static>(f: F) -> (r: Self)
        requires
            forall|values: Vec<Arc<T>>| #[trigger] f.requires((values,)),
        ensures
            r matches MemQ::Fold(op) && forall|values: Seq<Arc<T>>, to: Option<Arc<T>>| #[trigger]
                op.may_fold(values, to) == reduces::<T, F>(f, values, to),
    {
        let adapter: FoldFn<T, F> = FoldFn { f, marker: PhantomData };
        let ghost g = adapter;
        let boxed: Box<dyn Folder<T>> = Box::new(adapter);
        assert forall|values: Seq<Arc<T>>, to: Option<Arc<T>>| #[trigger] boxed.may_fold(values, to) == g.may_fold(values, to) by {}
        let shared = Arc::new(boxed);
        let op: Fold<T> = Fold { fold: shared };
        MemQ::Fold(op)
    }

    /// Keeps the first value of each key that `f` gives.
    pub fn unique_by<K: QueryKey + 'static, F: Fn(&T) -> K + Send + Sync + 'static>(f: F) -> (r: Self)
        requires
            forall|value: &T| #[trigger] f.requires((value,)),
        ensures
            r matches MemQ::Unique(op) && forall|value: T, key: KeyValue| #[trigger]
                op.may_key(value, key) == gives_key::<T, K, F>(f, value, key),
    {
        let adapter: KeyFn<T, K, F> = KeyFn { f, marker: PhantomData };
        let ghost g = adapter;
        let boxed: Box<dyn Keyer<T>> = Box::new(adapter);
        assert forall|value: T, key: KeyValue| #[trigger] boxed.may_key(value, key) == g.may_key(value, key) by {}
        let shared = Arc::new(boxed);
        let op: Unique<T> = Unique { key: shared };
        MemQ::Unique(op)
    }

    /// Puts the values of a key together, the keys in the order of their first values.
    pub fn group_by<K: QueryKey + 'static, F: Fn(&T) -> K + Send + Sync + 'static>(f: F) -> (r: Self)
        requires
            forall|value: &T| #[trigger] f.requires((value,)),
        ensures
            r matches MemQ::GroupBy(op) && forall|value: T, key: KeyValue| #[trigger]
                op.may_key(value, key) == gives_key::<T, K, F>(f, value, key),
    {
        let adapter: KeyFn<T, K, F> = KeyFn { f, marker: PhantomData };
        let ghost g = adapter;
        let boxed: Box<dyn Keyer<T>> = Box::new(adapter);
        assert forall|value: T, key: KeyValue| #[trigger] boxed.may_key(value, key) == g.may_key(value, key) by {}
        let shared = Arc::new(boxed);
        let op: GroupBy<T> = GroupBy { key: shared };
        MemQ::GroupBy(op)
    }

    /// Sorts by a comparison; values that tie keep their order.
    pub fn sort<F: Fn(&Arc<T>, &Arc<T>) -> NumberOrder + Send + Sync + 'static>(f: F) -> (r: Self)
        requires
            is_comparison::<T, F>(f),
        ensures
            r matches MemQ::Sort(op) && forall|values: Seq<Arc<T>>, positions: Seq<int>| #[trigger]
                op.may_sort(values, positions) == sorted_by(f, values, positions),
    {
        let adapter: CompareFn<T, F> = CompareFn { f, marker: PhantomData };
        let ghost g = adapter;
        let boxed: Box<dyn Sorter<T>> = Box::new(adapter);
        assert forall|values: Seq<Arc<T>>, positions: Seq<int>| #[trigger]
            boxed.may_sort(values, positions) == g.may_sort(values, positions) by {}
        let shared = Arc::new(boxed);
        let op: Sort<T> = Sort { sorter: shared };
        MemQ::Sort(op)
    }

    /// Sorts by the keys that `f` gives, each computed once; values whose keys tie keep
    /// their order.
    pub fn sort_by_key<K: FieldOrd + 'static, F: Fn(&T) -> K + Send + Sync + 'static>(f: F) -> (r:
        Self)
        requires
            forall|value: &T| #[trigger] f.requires((value,)),
            keys_are_ordered::<K>(),
        ensures
            r matches MemQ::Sort(op) && forall|values: Seq<Arc<T>>, positions: Seq<int>| #[trigger]
                op.may_sort(values, positions) == sorted_by_key::<T, K, F>(f, values, positions),
    {
        let adapter: CompareKeyFn<T, K, F> = CompareKeyFn { f, marker: PhantomData };
        let ghost g = adapter;
        let boxed: Box<dyn Sorter<T>> = Box::new(adapter);
        assert forall|values: Seq<Arc<T>>, positions: Seq<int>| #[trigger]
            boxed.may_sort(values, positions) == g.may_sort(values, positions) by {}
        let shared = Arc::new(boxed);
        let op: Sort<T> = Sort { sorter: shared };
        MemQ::Sort(op)
    }

    /// Keeps at most the first `count` values.
    pub fn take(count: usize) -> (r: Self)
        ensures
            r matches MemQ::Take(op) && op.spec_count() == count,
    {
        MemQ::Take(Take { count })
    }

    /// Drops the first `count` values.
    pub fn skip(count: usize) -> (r: Self)
        ensures
            r matches MemQ::Skip(op) && op.spec_count() == count,
    {
        MemQ::Skip(Skip { count })
    }

    /// Appends shared values.
    pub fn chain(values: Vec<Arc<T>>) -> (r: Self)
        ensures
            r matches MemQ::Chain(op) && op.appended() == values@,
    {
        MemQ::Chain(Chain { values })
    }

    /// Keeps the first value of each id.
    pub fn unique() -> (r: Self)
        ensures
            r matches MemQ::Unique(op) && forall|value: T, key: KeyValue| #[trigger]
                op.may_key(value, key) ==> key == KeyValue::Number(value.spec_id() as int),
    {
        let f = |value: &T| -> (id: i64)
            ensures
                id == value.spec_id(),
            { value.id() };
        MemQ::unique_by(f)
    }

    /// Applies the operation.
    pub fn apply(&self, values: Vec<Arc<T>>) -> (r: Vec<Arc<T>>)
        ensures
            step(*self, values@, r@),
    {
        match self {
            MemQ::Filter(op) => op.run(&values),
            MemQ::MapEach(op) => op.run(&values),
            MemQ::FlatMap(op) => op.run(&values),
            MemQ::Take(op) => op.run(values),
            MemQ::Skip(op) => op.run(&values),
            MemQ::Chain(op) => op.run(values),
            MemQ::Sort(op) => op.run(&values),
            MemQ::Unique(op) => op.run(&values),
            MemQ::GroupBy(op) => op.run(&values),
            MemQ::Partition(op) => op.run(&values),
            MemQ::Fold(op) => op.run(values),
        }
    }

    /// Applies operations in order.
    pub fn apply_all(ops: &Vec<Self>, values: Vec<Arc<T>>) -> (r: Vec<Arc<T>>)
        ensures
            outcome(ops@, values@, r@),
    {
        let ghost from = values@;
        let mut out = values;
        let mut i: usize = 0;
        while i < ops.len()
            invariant
                i <= ops@.len(),
                outcome(ops@.take(i as int), from, out@),
            decreases ops@.len() - i,
        {
            let ghost between = out@;
            out = ops[i].apply(out);
            assert(ops@.take(i + 1).drop_last() =~= ops@.take(i as int));
            assert(outcome(ops@.take(i + 1).drop_last(), from, between) && step(
                ops@.take(i + 1).last(),
                between,
                out@,
            ));
            i += 1;
        }
        assert(ops@.take(i as int) =~= ops@);
        out
    }
}

impl<T: Cacheable + Clone + Send + Sync + 'static> MemQ<T> {

    /// Replaces each value by another.
    pub fn map<F: Fn(&T) -> T + Send + Sync + 'static>(f: F) -> (r: Self)
        requires
            forall|value: &T| #[trigger] f.requires((value,)),
        ensures
            r matches MemQ::MapEach(op) && forall|value: T, by: T| #[trigger]
                op.may_map(value, by) == f.ensures((&value,), by),
    {
        let adapter: MapFn<T, F> = MapFn { f, marker: PhantomData };
        let ghost g = adapter;
        let boxed: Box<dyn Mapper<T>> = Box::new(adapter);
        assert forall|value: T, by: T| #[trigger] boxed.may_map(value, by) == g.may_map(value, by) by {}
        let shared = Arc::new(boxed);
        let op: MapEach<T> = MapEach { map: shared };
        MemQ::MapEach(op)
    }

    /// Replaces each value by a list.
    pub fn flat_map<F: Fn(&T) -> Vec<T> + Send + Sync + 'static>(f: F) -> (r: Self)
        requires
            forall|value: &T| #[trigger] f.requires((value,)),
        ensures
            r matches MemQ::FlatMap(op) && forall|value: T, by: Seq<Arc<T>>| #[trigger]
                op.may_map(value, by) == gives_list::<T, F>(f, value, by),
    {
        let adapter: FlatMapFn<T, F> = FlatMapFn { f, marker: PhantomData };
        let ghost g = adapter;
        let boxed: Box<dyn FlatMapper<T>> = Box::new(adapter);
        assert forall|value: T, by: Seq<Arc<T>>| #[trigger] boxed.may_map(value, by) == g.may_map(value, by) by {}
        let shared = Arc::new(boxed);
        let op: FlatMap<T> = FlatMap { flat_map: shared };
        MemQ::FlatMap(op)
    }

    /// Appends values.
    pub fn chain_values(values: Vec<T>) -> (r: Self)
        ensures
            r matches MemQ::Chain(op) && op.appended() == shared(values@),
    {
        MemQ::chain(share(values))
    }
}

impl<T: Cacheable + Send + Sync + 'static> From<BasicPredicate<T>> for MemQ<T> {
    fn from(predicate: BasicPredicate<T>) -> (r: Self) {
        MemQ::filter_basic(predicate)
    }
}

impl<T: Cacheable + Send + Sync + 'static> vstd::std_specs::convert::FromSpecImpl<BasicPredicate<T>>
    for MemQ<T> {
    open spec fn obeys_from_spec() -> bool {
        true
    }

    open spec fn from_spec(predicate: BasicPredicate<T>) -> Self {
        MemQ::Filter(Filter::basic(predicate))
    }
}

impl Take {
    fn run<T>(&self, values: Vec<Arc<T>>) -> (r: Vec<Arc<T>>)
        ensures
            r@ == (if self.spec_count() < values@.len() {
                values@.take(self.spec_count())
            } else {
                values@
            }),
    {
        let mut r = values;
        r.truncate(self.count);
        r
    }
}

impl Skip {
    fn run<T>(&self, values: &Vec<Arc<T>>) -> (r: Vec<Arc<T>>)
        ensures
            r@ == (if self.spec_count() < values@.len() {
                values@.skip(self.spec_count())
            } else {
                Seq::empty()
            }),
    {
        let mut r: Vec<Arc<T>> = Vec::new();
        let mut i: usize = self.count;
        while i < values.len()
            invariant
                self.count <= i,
                self.count < values@.len() ==> i <= values@.len() && r@ == values@.subrange(
                    self.count as int,
                    i as int,
                ),
                self.count >= values@.len() ==> r@ == Seq::<Arc<T>>::empty(),
            decreases values@.len() - i,
        {
            r.push(values[i].clone());
            i += 1;
        }
        r
    }
}

impl<T: Cacheable> Chain<T> {
    fn run(&self, values: Vec<Arc<T>>) -> (r: Vec<Arc<T>>)
        ensures
            r@ == values@ + self.appended(),
    {
        let ghost from = values@;
        let mut r = values;
        let mut i: usize = 0;
        while i < self.values.len()
            invariant
                i <= self.values@.len(),
                r@ == from + self.values@.take(i as int),
            decreases self.values@.len() - i,
        {
            r.push(self.values[i].clone());
            i += 1;
        }
        assert(self.values@.take(i as int) =~= self.values@);
        r
    }
}

impl<T: Cacheable> Fold<T> {
    fn run(&self, values: Vec<Arc<T>>) -> (r: Vec<Arc<T>>)
        ensures
            folded(*self, values@, r@),
    {
        let mut r: Vec<Arc<T>> = Vec::new();
        match self.fold.fold(values) {
            Some(value) => {
                r.push(value);
            },
            None => {},
        }
        r
    }
}

} // verus!
