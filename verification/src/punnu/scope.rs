//! Queries over the live values of a pool.

use vstd::prelude::*;
use crate::cacheable::Cacheable;
use crate::json::binary64::NumberOrder;
use crate::predicate::basic::BasicPredicate;
use crate::predicate::field_value::FieldOrd;
use crate::predicate::memq::MemQ;
use crate::predicate::query_key::{KeyValue, QueryKey};
use crate::punnu::pool::Punnu;
use crate::time::Instant;
use std::sync::Arc;

verus! {

/// Operations to run over the live values of a pool.
#[verifier::reject_recursive_types(T)]
pub struct PunnuScope<'a, T: Cacheable> {
    pool: &'a Punnu<T>,
    ops: Vec<MemQ<T>>,
}

impl<'a, T: Cacheable + Send + Sync + 'static> PunnuScope<'a, T> {
    /// The pool.
    pub closed spec fn source(&self) -> Punnu<T> {
        *self.pool
    }

    /// The operations, in order.
    pub closed spec fn operations(&self) -> Seq<MemQ<T>> {
        self.ops@
    }

    /// The scope with one more operation.
    pub open spec fn extends(&self, from: Self, op: MemQ<T>) -> bool {
        self.source() == from.source() && self.operations() == from.operations().push(op)
    }

    /// Whether the scope may give `out`.
    pub open spec fn may_give(&self, now: Instant, out: Seq<Arc<T>>) -> bool {
        crate::predicate::memq::outcome(
            self.operations(),
            crate::punnu::model::live_values(self.source().entries(), self.source().order(), now),
            out,
        )
    }

    /// Starts from a pool and operations.
    pub fn new(pool: &'a Punnu<T>, ops: Vec<MemQ<T>>) -> (r: Self)
        ensures
            r.source() == *pool,
            r.operations() == ops@,
    {
        PunnuScope { pool, ops }
    }

    /// Adds an operation.
    pub fn with_op(self, op: MemQ<T>) -> (r: Self)
        ensures
            r.extends(self, op),
    {
        let mut ops = self.ops;
        ops.push(op);
        PunnuScope { pool: self.pool, ops }
    }

    /// Adds the operation that `build` makes of the fields of the type.
    pub fn filter<F: FnOnce(T::Fields) -> MemQ<T>>(self, build: F) -> (r: Self)
        requires
            build.requires((T::spec_fields(),)),
        ensures
            exists|op: MemQ<T>| #[trigger]
                build.ensures((T::spec_fields(),), op) && r.extends(self, op),
    {
        let op = build(T::fields());
        self.with_op(op)
    }

    /// Keeps the values that pass the predicate that `build` makes of the fields of the
    /// type.
    pub fn filter_basic<F: FnOnce(T::Fields) -> BasicPredicate<T>>(self, build: F) -> (r: Self)
        requires
            build.requires((T::spec_fields(),)),
        ensures
            exists|predicate: BasicPredicate<T>| #[trigger]
                build.ensures((T::spec_fields(),), predicate) && r.extends(
                    self,
                    MemQ::Filter(crate::predicate::memq::Filter::basic(predicate)),
                ),
    {
        let predicate = build(T::fields());
        self.with_op(MemQ::filter_basic(predicate))
    }

    /// Keeps the values that pass `f`.
    pub fn filter_closure<F: Fn(&T) -> bool + Send + Sync + 'static>(self, f: F) -> (r: Self)
        requires
            forall|value: &T| #[trigger] f.requires((value,)),
        ensures
            exists|op: crate::predicate::memq::Filter<T>| #[trigger]
                r.extends(self, MemQ::Filter(op)) && forall|value: T, answer: bool| #[trigger]
                    op.may_answer(value, answer) == f.ensures((&value,), answer),
    {
        let op = MemQ::filter(f);
        let ghost made = op;
        let r = self.with_op(op);
        assert(r.extends(self, MemQ::Filter(made->Filter_0)));
        r
    }

    /// Replaces each shared value by another.
    pub fn map_arc<F: Fn(Arc<T>) -> Arc<T> + Send + Sync + 'static>(self, f: F) -> (r: Self)
        requires
            forall|value: Arc<T>| #[trigger] f.requires((value,)),
        ensures
            exists|op: crate::predicate::memq::MapEach<T>| #[trigger]
                r.extends(self, MemQ::MapEach(op)) && forall|value: T, by: T| #[trigger]
                    op.may_map(value, by) == f.ensures((Arc::new(value),), Arc::new(by)),
    {
        let op = MemQ::map_arc(f);
        let ghost made = op;
        let r = self.with_op(op);
        assert(r.extends(self, MemQ::MapEach(made->MapEach_0)));
        r
    }

    /// Replaces each shared value by a sequence.
    pub fn flat_map_arc<F: Fn(Arc<T>) -> Vec<Arc<T>> + Send + Sync + 'static>(self, f: F) -> (r: Self)
        requires
            forall|value: Arc<T>| #[trigger] f.requires((value,)),
        ensures
            exists|op: crate::predicate::memq::FlatMap<T>| #[trigger]
                r.extends(self, MemQ::FlatMap(op)) && forall|value: T, by: Seq<Arc<T>>| #[trigger]
                    op.may_map(value, by) == crate::predicate::memq::gives_shared_list::<T, F>(f, value, by),
    {
        let op = MemQ::flat_map_arc(f);
        let ghost made = op;
        let r = self.with_op(op);
        assert(r.extends(self, MemQ::FlatMap(made->FlatMap_0)));
        r
    }

    /// Keeps at most the first `count` values.
    pub fn take(self, count: usize) -> (r: Self)
        ensures
            exists|op: crate::predicate::memq::Take| #[trigger]
                r.extends(self, MemQ::Take(op)) && op.spec_count() == count,
    {
        let op = MemQ::take(count);
        let ghost made = op;
        let r = self.with_op(op);
        assert(r.extends(self, MemQ::Take(made->Take_0)));
        r
    }

    /// Drops the first `count` values.
    pub fn skip(self, count: usize) -> (r: Self)
        ensures
            exists|op: crate::predicate::memq::Skip| #[trigger]
                r.extends(self, MemQ::Skip(op)) && op.spec_count() == count,
    {
        let op = MemQ::skip(count);
        let ghost made = op;
        let r = self.with_op(op);
        assert(r.extends(self, MemQ::Skip(made->Skip_0)));
        r
    }

    /// Appends shared values.
    pub fn chain(self, values: Vec<Arc<T>>) -> (r: Self)
        ensures
            exists|op: crate::predicate::memq::Chain<T>| #[trigger]
                r.extends(self, MemQ::Chain(op)) && op.appended() == values@,
    {
        let op = MemQ::chain(values);
        let ghost made = op;
        let r = self.with_op(op);
        assert(r.extends(self, MemQ::Chain(made->Chain_0)));
        r
    }

    /// Sorts by a comparison; values that tie keep their order.
    pub fn sort<F: Fn(&Arc<T>, &Arc<T>) -> NumberOrder + Send + Sync + 'static>(self, f: F) -> (r: Self)
        requires
            crate::predicate::memq::is_comparison::<T, F>(f),
        ensures
            exists|op: crate::predicate::memq::Sort<T>| #[trigger]
                r.extends(self, MemQ::Sort(op)) && forall|
                    values: Seq<Arc<T>>,
                    positions: Seq<int>,
                | #[trigger]
                    op.may_sort(values, positions) == crate::predicate::memq::sorted_by(
                        f,
                        values,
                        positions,
                    ),
    {
        let op = MemQ::sort(f);
        let ghost made = op;
        let r = self.with_op(op);
        assert(r.extends(self, MemQ::Sort(made->Sort_0)));
        r
    }

    /// Sorts by the keys that `f` gives; values whose keys tie keep their order.
    pub fn sort_by_key<K: FieldOrd + 'static, F: Fn(&T) -> K + Send + Sync + 'static>(self, f: F) -> (r: Self)
        requires
            forall|value: &T| #[trigger] f.requires((value,)),
            crate::predicate::memq::keys_are_ordered::<K>(),
        ensures
            exists|op: crate::predicate::memq::Sort<T>| #[trigger]
                r.extends(self, MemQ::Sort(op)) && forall|
                    values: Seq<Arc<T>>,
                    positions: Seq<int>,
                | #[trigger]
                    op.may_sort(values, positions) == crate::predicate::memq::sorted_by_key::<
                        T,
                        K,
                        F,
                    >(f, values, positions),
    {
        let op = MemQ::sort_by_key(f);
        let ghost made = op;
        let r = self.with_op(op);
        assert(r.extends(self, MemQ::Sort(made->Sort_0)));
        r
    }

    /// Keeps the first value of each id.
    pub fn unique(self) -> (r: Self)
        ensures
            exists|op: crate::predicate::memq::Unique<T>| #[trigger]
                r.extends(self, MemQ::Unique(op)) && forall|value: T, key: KeyValue| #[trigger]
                    op.may_key(value, key) ==> key == KeyValue::Number(value.spec_id() as int),
    {
        let op = MemQ::unique();
        let ghost made = op;
        let r = self.with_op(op);
        assert(r.extends(self, MemQ::Unique(made->Unique_0)));
        r
    }

    /// Keeps the first value of each key that `f` gives.
    pub fn unique_by<K: QueryKey + 'static, F: Fn(&T) -> K + Send + Sync + 'static>(self, f: F) -> (r: Self)
        requires
            forall|value: &T| #[trigger] f.requires((value,)),
        ensures
            exists|op: crate::predicate::memq::Unique<T>| #[trigger]
                r.extends(self, MemQ::Unique(op)) && forall|value: T, key: KeyValue| #[trigger]
                    op.may_key(value, key) == crate::predicate::memq::gives_key::<T, K, F>(f, value, key),
    {
        let op = MemQ::unique_by(f);
        let ghost made = op;
        let r = self.with_op(op);
        assert(r.extends(self, MemQ::Unique(made->Unique_0)));
        r
    }

    /// Puts the values of a key together, the keys in the order of their first values.
    pub fn group_by<K: QueryKey + 'static, F: Fn(&T) -> K + Send + Sync + 'static>(self, f: F) -> (r: Self)
        requires
            forall|value: &T| #[trigger] f.requires((value,)),
        ensures
            exists|op: crate::predicate::memq::GroupBy<T>| #[trigger]
                r.extends(self, MemQ::GroupBy(op)) && forall|value: T, key: KeyValue| #[trigger]
                    op.may_key(value, key) == crate::predicate::memq::gives_key::<T, K, F>(f, value, key),
    {
        let op = MemQ::group_by(f);
        let ghost made = op;
        let r = self.with_op(op);
        assert(r.extends(self, MemQ::GroupBy(made->GroupBy_0)));
        r
    }

    /// Moves the values that pass `f` to the front.
    pub fn partition<F: Fn(&T) -> bool + Send + Sync + 'static>(self, f: F) -> (r: Self)
        requires
            forall|value: &T| #[trigger] f.requires((value,)),
        ensures
            exists|op: crate::predicate::memq::Partition<T>| #[trigger]
                r.extends(self, MemQ::Partition(op)) && forall|value: T, answer: bool| #[trigger]
                    op.may_answer(value, answer) == f.ensures((&value,), answer),
    {
        let op = MemQ::partition(f);
        let ghost made = op;
        let r = self.with_op(op);
        assert(r.extends(self, MemQ::Partition(made->Partition_0)));
        r
    }

    /// Reduces the sequence to one value or none.
    pub fn fold<F: Fn(Vec<Arc<T>>) -> Option<Arc<T>> + Send + Sync + 'static>(self, f: F) -> (r: Self)
        requires
            forall|values: Vec<Arc<T>>| #[trigger] f.requires((values,)),
        ensures
            exists|op: crate::predicate::memq::Fold<T>| #[trigger]
                r.extends(self, MemQ::Fold(op))
                    && forall|values: Seq<Arc<T>>, to: Option<Arc<T>>| #[trigger]
                    op.may_fold(values, to) == crate::predicate::memq::reduces::<T, F>(f, values, to),
    {
        let op = MemQ::fold(f);
        let ghost made = op;
        let r = self.with_op(op);
        assert(r.extends(self, MemQ::Fold(made->Fold_0)));
        r
    }

    /// Runs the operations over the values that are live at `now`.
    pub fn collect(self, now: Instant) -> (r: Vec<Arc<T>>)
        requires
            self.source().wf(),
        ensures
            self.may_give(now, r@),
    {
        MemQ::apply_all(&self.ops, self.pool.snapshot_unexpired(now))
    }

    /// Runs the operations and returns the first value.
    pub fn first(self, now: Instant) -> (r: Option<Arc<T>>)
        requires
            self.source().wf(),
        ensures
            exists|out: Seq<Arc<T>>| #[trigger]
                self.may_give(now, out) && r == (if out.len() == 0 {
                    None
                } else {
                    Some(out[0])
                }),
    {
        let limited = self.take(1);
        let ghost op = choose|op: crate::predicate::memq::Take| #[trigger]
            limited.extends(self, MemQ::Take(op)) && op.spec_count() == 1;
        let ghost limited_copy = limited;
        let out = limited.collect(now);
        proof {
            let ops = limited_copy.operations();
            let values = crate::punnu::model::live_values(
                self.source().entries(),
                self.source().order(),
                now,
            );
            assert(ops.drop_last() =~= self.operations());
            let between = choose|between: Seq<Arc<T>>|
                crate::predicate::memq::outcome(ops.drop_last(), values, between)
                    && #[trigger] crate::predicate::memq::step(ops.last(), between, out@);
            assert(crate::predicate::memq::step(ops.last(), between, out@));
            assert(self.may_give(now, between));
        }
        if out.len() == 0 {
            None
        } else {
            Some(out[0].clone())
        }
    }

    /// Runs the operations and counts the values.
    pub fn count(self, now: Instant) -> (r: usize)
        requires
            self.source().wf(),
        ensures
            exists|out: Seq<Arc<T>>| #[trigger] self.may_give(now, out) && r == out.len(),
    {
        let out = self.collect(now);
        assert(self.may_give(now, out@));
        out.len()
    }

    /// Runs the operations and tells whether there is a value.
    pub fn any(self, now: Instant) -> (r: bool)
        requires
            self.source().wf(),
        ensures
            exists|out: Seq<Arc<T>>| #[trigger] self.may_give(now, out) && r == (out.len() > 0),
    {
        match self.first(now) {
            Some(_) => true,
            None => false,
        }
    }

    /// Runs the operations; the values are handed out one by one.
    pub fn iter(self, now: Instant) -> (r: std::vec::IntoIter<Arc<T>>)
        requires
            self.source().wf(),
        ensures
            self.may_give(now, vstd::std_specs::iter::IteratorSpec::remaining(&r)),
    {
        self.collect(now).into_iter()
    }
}

impl<'a, T: Cacheable + Clone + Send + Sync + 'static> PunnuScope<'a, T> {
    /// Replaces each value by another.
    pub fn map<F: Fn(&T) -> T + Send + Sync + 'static>(self, f: F) -> (r: Self)
        requires
            forall|value: &T| #[trigger] f.requires((value,)),
        ensures
            exists|op: crate::predicate::memq::MapEach<T>| #[trigger]
                r.extends(self, MemQ::MapEach(op)) && forall|value: T, by: T| #[trigger]
                    op.may_map(value, by) == f.ensures((&value,), by),
    {
        let op = MemQ::map(f);
        let ghost made = op;
        let r = self.with_op(op);
        assert(r.extends(self, MemQ::MapEach(made->MapEach_0)));
        r
    }

    /// Replaces each value by a list.
    pub fn flat_map<F: Fn(&T) -> Vec<T> + Send + Sync + 'static>(self, f: F) -> (r: Self)
        requires
            forall|value: &T| #[trigger] f.requires((value,)),
        ensures
            exists|op: crate::predicate::memq::FlatMap<T>| #[trigger]
                r.extends(self, MemQ::FlatMap(op)) && forall|value: T, by: Seq<Arc<T>>| #[trigger]
                    op.may_map(value, by) == crate::predicate::memq::gives_list::<T, F>(f, value, by),
    {
        let op = MemQ::flat_map(f);
        let ghost made = op;
        let r = self.with_op(op);
        assert(r.extends(self, MemQ::FlatMap(made->FlatMap_0)));
        r
    }

    /// Appends values.
    pub fn chain_values(self, values: Vec<T>) -> (r: Self)
        ensures
            exists|op: crate::predicate::memq::Chain<T>| #[trigger]
                r.extends(self, MemQ::Chain(op)) && op.appended()
                    == crate::predicate::memq::shared(values@),
    {
        let op = MemQ::chain_values(values);
        let ghost made = op;
        let r = self.with_op(op);
        assert(r.extends(self, MemQ::Chain(made->Chain_0)));
        r
    }
}

impl<T: Cacheable + Send + Sync + 'static> Punnu<T> {
    /// Starts a query over the pool.
    pub fn scope<'a>(&'a self, ops: Vec<MemQ<T>>) -> (r: PunnuScope<'a, T>)
        ensures
            r.source() == *self,
            r.operations() == ops@,
    {
        PunnuScope::new(self, ops)
    }
}

} // verus!
