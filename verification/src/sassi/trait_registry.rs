//! Which model types implement which traits.

use vstd::prelude::*;
use crate::sassi::orchestrator::Sassi;
use crate::sassi::sealed::Sealed;
use std::collections::HashSet;

verus! {

broadcast use vstd::std_specs::hash::group_hash_axioms;

/// A way to collect the values of one model type as values of a trait.
pub trait Collector<P, V>: Send + Sync {
    /// Whether collecting from the pools may give this; `None` where it gives something
    /// else than values of the trait. Anything, unless an implementation says more.
    open spec fn may_collect(&self, pools: Map<u64, P>, values: Option<Seq<V>>) -> bool {
        true
    }

    /// Collects from the pools.
    fn collect(&self, sassi: &Sassi<P>) -> (r: Option<Vec<V>>)
        ensures
            self.may_collect(sassi.pools(), seen_values(r)),
    ;
}

/// Collected values as a sequence.
pub open spec fn seen_values<V>(r: Option<Vec<V>>) -> Option<Seq<V>> {
    match r {
        Some(values) => Some(values@),
        None => None,
    }
}

/// One implementation of a trait by a model type.
#[verifier::reject_recursive_types(P)]
#[verifier::reject_recursive_types(V)]
pub struct TraitImplEntry<P, V> {
    /// The id of the trait.
    pub trait_type_id: u64,
    /// The id of the model type.
    pub model_type_id: u64,
    /// How its values are collected.
    pub collect_fn: Box<dyn Collector<P, V>>,
}

/// `Self` has a registered implementation of the trait.
pub trait TraitImpl<Trait: ?Sized>: Sealed<Trait> {

}

/// An entry before `i` is of the trait and of this model type.
pub open spec fn listed_before<P, V>(
    entries: Seq<TraitImplEntry<P, V>>,
    trait_type_id: u64,
    model_type_id: u64,
    i: int,
) -> bool {
    exists|j: int|
        0 <= j < i && (#[trigger] entries[j]).trait_type_id == trait_type_id
            && entries[j].model_type_id == model_type_id
}

/// The entry at `i` is the first one of the trait for its model type.
pub open spec fn is_chosen<P, V>(
    entries: Seq<TraitImplEntry<P, V>>,
    trait_type_id: u64,
    i: int,
) -> bool {
    entries[i].trait_type_id == trait_type_id && !listed_before(
        entries,
        trait_type_id,
        entries[i].model_type_id,
        i,
    )
}

/// Whether the first `n` entries may give these values: each model type that registered
/// the trait is collected from once, in the order of registration.
pub open spec fn may_collect_first<P, V>(
    entries: Seq<TraitImplEntry<P, V>>,
    trait_type_id: u64,
    pools: Map<u64, P>,
    n: nat,
    out: Seq<V>,
) -> bool
    decreases n,
{
    if n == 0 {
        out == Seq::<V>::empty()
    } else if !is_chosen(entries, trait_type_id, n - 1) {
        may_collect_first(entries, trait_type_id, pools, (n - 1) as nat, out)
    } else {
        exists|before: Seq<V>, values: Option<Seq<V>>|
            #![trigger with_values(before, values)]
            {
                &&& may_collect_first(entries, trait_type_id, pools, (n - 1) as nat, before)
                &&& entries[n - 1].collect_fn.may_collect(pools, values)
                &&& out == with_values(before, values)
            }
    }
}

/// Values, and those of one more model type.
pub open spec fn with_values<V>(before: Seq<V>, values: Option<Seq<V>>) -> Seq<V> {
    match values {
        Some(more) => before + more,
        None => before,
    }
}

/// Whether the entries may give these values.
pub open spec fn may_collect_for<P, V>(
    entries: Seq<TraitImplEntry<P, V>>,
    trait_type_id: u64,
    pools: Map<u64, P>,
    out: Seq<V>,
) -> bool {
    may_collect_first(entries, trait_type_id, pools, entries.len(), out)
}

/// A handle to the registrations.
#[derive(Debug, Clone, Copy)]
pub struct TraitRegistry;

impl TraitRegistry {
    /// Makes a handle.
    pub fn new() -> (r: Self)
        ensures
            r == TraitRegistry,
    {
        TraitRegistry
    }

    /// Collects the values of every model type that registered the trait, each model type
    /// once.
    pub fn collect_for<P, V>(
        &self,
        entries: &Vec<TraitImplEntry<P, V>>,
        trait_type_id: u64,
        sassi: &Sassi<P>,
    ) -> (r: Vec<V>)
        ensures
            may_collect_for(entries@, trait_type_id, sassi.pools(), r@),
    {
        let mut out: Vec<V> = Vec::new();
        let mut seen: HashSet<u64> = HashSet::new();
        let mut i: usize = 0;
        while i < entries.len()
            invariant
                i <= entries@.len(),
                forall|model: u64| #[trigger]
                    seen@.contains(model) == listed_before(
                        entries@,
                        trait_type_id,
                        model,
                        i as int,
                    ),
                may_collect_first(entries@, trait_type_id, sassi.pools(), i as nat, out@),
            decreases entries@.len() - i,
        {
            let entry = &entries[i];
            let ghost was = seen@;
            let ghost before = out@;
            assert((i + 1 - 1) as nat == i as nat);
            if entry.trait_type_id == trait_type_id {
                let fresh = seen.insert(entry.model_type_id);
                assert(fresh == is_chosen(entries@, trait_type_id, i as int)) by {
                    assert(was.contains(entry.model_type_id) == listed_before(
                        entries@,
                        trait_type_id,
                        entry.model_type_id,
                        i as int,
                    ));
                }
                if fresh {
                    let collected = entry.collect_fn.collect(sassi);
                    let ghost values = seen_values(collected);
                    match collected {
                        Some(found) => {
                            let mut more = found;
                            out.append(&mut more);
                        },
                        None => {},
                    }
                    assert(out@ == with_values(before, values));
                }
            }
            assert forall|model: u64| #[trigger] seen@.contains(model) == listed_before(
                entries@,
                trait_type_id,
                model,
                i + 1,
            ) by {
                assert(was.contains(model) == listed_before(
                    entries@,
                    trait_type_id,
                    model,
                    i as int,
                ));
                if listed_before(entries@, trait_type_id, model, i as int) {
                    let j = choose|j: int|
                        0 <= j < i && (#[trigger] entries@[j]).trait_type_id == trait_type_id
                            && entries@[j].model_type_id == model;
                    assert(entries@[j].trait_type_id == trait_type_id);
                }
                if entry.trait_type_id == trait_type_id && entry.model_type_id == model {
                    assert(entries@[i as int].trait_type_id == trait_type_id);
                }
            }
            i += 1;
        }
        out
    }
}

/// A registration that is repeated adds nothing.
pub proof fn repeated_registrations_add_nothing<P, V>(
    entries: Seq<TraitImplEntry<P, V>>,
    again: TraitImplEntry<P, V>,
    trait_type_id: u64,
    pools: Map<u64, P>,
    out: Seq<V>,
)
    requires
        again.trait_type_id != trait_type_id || listed_before(
            entries,
            trait_type_id,
            again.model_type_id,
            entries.len() as int,
        ),
    ensures
        may_collect_for(entries.push(again), trait_type_id, pools, out) == may_collect_for(
            entries,
            trait_type_id,
            pools,
            out,
        ),
{
    let longer = entries.push(again);
    let n = entries.len();
    lemma_prefix_decides(entries, again, trait_type_id, pools, n, out);
    if again.trait_type_id == trait_type_id {
        let j = choose|j: int|
            0 <= j < n && (#[trigger] entries[j]).trait_type_id == trait_type_id
                && entries[j].model_type_id == again.model_type_id;
        assert(longer[j] == entries[j]);
        assert(listed_before(longer, trait_type_id, again.model_type_id, n as int));
    }
    assert(longer[n as int] == again);
    assert((n + 1 - 1) as nat == n);
    assert(!is_chosen(longer, trait_type_id, n as int));
}

/// What the first entries give does not depend on those after them.
proof fn lemma_prefix_decides<P, V>(
    entries: Seq<TraitImplEntry<P, V>>,
    again: TraitImplEntry<P, V>,
    trait_type_id: u64,
    pools: Map<u64, P>,
    n: nat,
    out: Seq<V>,
)
    requires
        n <= entries.len(),
    ensures
        may_collect_first(entries.push(again), trait_type_id, pools, n, out) == may_collect_first(
            entries,
            trait_type_id,
            pools,
            n,
            out,
        ),
    decreases n,
{
    let longer = entries.push(again);
    if n > 0 {
        let i = n - 1;
        assert(longer[i] == entries[i]);
        assert(listed_before(longer, trait_type_id, entries[i].model_type_id, i) == listed_before(
            entries,
            trait_type_id,
            entries[i].model_type_id,
            i,
        )) by {
            assert forall|j: int| 0 <= j < i implies longer[j] == entries[j] by {}
            if listed_before(longer, trait_type_id, entries[i].model_type_id, i) {
                let j = choose|j: int|
                    0 <= j < i && (#[trigger] longer[j]).trait_type_id == trait_type_id
                        && longer[j].model_type_id == entries[i].model_type_id;
                assert(entries[j].trait_type_id == trait_type_id);
            }
            if listed_before(entries, trait_type_id, entries[i].model_type_id, i) {
                let j = choose|j: int|
                    0 <= j < i && (#[trigger] entries[j]).trait_type_id == trait_type_id
                        && entries[j].model_type_id == entries[i].model_type_id;
                assert(longer[j].trait_type_id == trait_type_id);
            }
        }
        if is_chosen(entries, trait_type_id, i) {
            if may_collect_first(longer, trait_type_id, pools, n, out) {
                let (before, values) = choose|before: Seq<V>, values: Option<Seq<V>>|
                    #![trigger with_values(before, values)]
                    may_collect_first(longer, trait_type_id, pools, i as nat, before)
                        && longer[i].collect_fn.may_collect(pools, values) && out == with_values(
                        before,
                        values,
                    );
                lemma_prefix_decides(entries, again, trait_type_id, pools, i as nat, before);
                assert(out == with_values(before, values));
            }
            if may_collect_first(entries, trait_type_id, pools, n, out) {
                let (before, values) = choose|before: Seq<V>, values: Option<Seq<V>>|
                    #![trigger with_values(before, values)]
                    may_collect_first(entries, trait_type_id, pools, i as nat, before)
                        && entries[i].collect_fn.may_collect(pools, values) && out == with_values(
                        before,
                        values,
                    );
                lemma_prefix_decides(entries, again, trait_type_id, pools, i as nat, before);
                assert(out == with_values(before, values));
            }
        } else {
            lemma_prefix_decides(entries, again, trait_type_id, pools, i as nat, out);
        }
    }
}

/// A registration that comes last adds the values of its model type after the others where
/// it is for the trait and no earlier one is for the same model type; otherwise it adds
/// nothing.
pub proof fn new_registrations_add_their_values<P, V>(
    entries: Seq<TraitImplEntry<P, V>>,
    entry: TraitImplEntry<P, V>,
    trait_type_id: u64,
    pools: Map<u64, P>,
    out: Seq<V>,
)
    requires
        may_collect_for(entries.push(entry), trait_type_id, pools, out),
    ensures
        ({
            let known = exists|i: int|
                0 <= i < entries.len() && (#[trigger] entries[i]).trait_type_id == trait_type_id
                    && entries[i].model_type_id == entry.model_type_id;
            if entry.trait_type_id != trait_type_id || known {
                may_collect_for(entries, trait_type_id, pools, out)
            } else {
                exists|before: Seq<V>, values: Option<Seq<V>>|
                    #![trigger may_collect_for(entries, trait_type_id, pools, before),
                        entry.collect_fn.may_collect(pools, values)]
                    may_collect_for(entries, trait_type_id, pools, before)
                        && entry.collect_fn.may_collect(pools, values) && (match values {
                        Some(more) => out == before + more,
                        None => out == before,
                    })
            }
        }),
{
    let all = entries.push(entry);
    let n = entries.len();
    assert(all[n as int] == entry);
    assert((all.len() - 1) as nat == n);
    assert(may_collect_first(all, trait_type_id, pools, all.len(), out));
    assert forall|before: Seq<V>| #[trigger]
        may_collect_first(all, trait_type_id, pools, n, before) == may_collect_first(
            entries,
            trait_type_id,
            pools,
            n,
            before,
        ) by {
        lemma_first_entries(entries, all, trait_type_id, pools, n, before);
    }
    if listed_before(all, trait_type_id, entry.model_type_id, n as int) {
        let j = choose|j: int|
            0 <= j < n && (#[trigger] all[j]).trait_type_id == trait_type_id
                && all[j].model_type_id == entry.model_type_id;
        assert(entries[j].trait_type_id == trait_type_id);
    }
    if exists|i: int|
        0 <= i < entries.len() && (#[trigger] entries[i]).trait_type_id == trait_type_id
            && entries[i].model_type_id == entry.model_type_id {
        let i = choose|i: int|
            0 <= i < entries.len() && (#[trigger] entries[i]).trait_type_id == trait_type_id
                && entries[i].model_type_id == entry.model_type_id;
        assert(all[i].trait_type_id == trait_type_id);
    }
    let known = exists|i: int|
        0 <= i < entries.len() && (#[trigger] entries[i]).trait_type_id == trait_type_id
            && entries[i].model_type_id == entry.model_type_id;
    assert(listed_before(all, trait_type_id, entry.model_type_id, n as int) == known);
    assert(is_chosen(all, trait_type_id, all.len() - 1) == (entry.trait_type_id == trait_type_id
        && !known));
    if !is_chosen(all, trait_type_id, all.len() - 1) {
        assert(may_collect_first(all, trait_type_id, pools, n, out));
    }
    if is_chosen(all, trait_type_id, all.len() - 1) {
        let (before, values) = choose|before: Seq<V>, values: Option<Seq<V>>|
            #![trigger with_values(before, values)]
            {
                &&& may_collect_first(all, trait_type_id, pools, n, before)
                &&& all[n as int].collect_fn.may_collect(pools, values)
                &&& out == with_values(before, values)
            };
        assert(may_collect_for(entries, trait_type_id, pools, before));
        assert(entry.collect_fn.may_collect(pools, values));
    }
}

/// What the first registrations give does not depend on later ones.
proof fn lemma_first_entries<P, V>(
    entries: Seq<TraitImplEntry<P, V>>,
    all: Seq<TraitImplEntry<P, V>>,
    trait_type_id: u64,
    pools: Map<u64, P>,
    n: nat,
    out: Seq<V>,
)
    requires
        n <= entries.len() <= all.len(),
        forall|i: int| 0 <= i < entries.len() ==> #[trigger] all[i] == entries[i],
    ensures
        may_collect_first(all, trait_type_id, pools, n, out) == may_collect_first(
            entries,
            trait_type_id,
            pools,
            n,
            out,
        ),
    decreases n,
{
    if n > 0 {
        let k = n - 1;
        assert(all[k] == entries[k]);
        assert(listed_before(all, trait_type_id, entries[k].model_type_id, k) == listed_before(
            entries,
            trait_type_id,
            entries[k].model_type_id,
            k,
        )) by {
            if listed_before(all, trait_type_id, entries[k].model_type_id, k) {
                let j = choose|j: int|
                    0 <= j < k && (#[trigger] all[j]).trait_type_id == trait_type_id
                        && all[j].model_type_id == entries[k].model_type_id;
                assert(entries[j].trait_type_id == trait_type_id);
            }
            if listed_before(entries, trait_type_id, entries[k].model_type_id, k) {
                let j = choose|j: int|
                    0 <= j < k && (#[trigger] entries[j]).trait_type_id == trait_type_id
                        && entries[j].model_type_id == entries[k].model_type_id;
                assert(all[j].trait_type_id == trait_type_id);
            }
        }
        let less = k as nat;
        assert forall|before: Seq<V>| #[trigger]
            may_collect_first(all, trait_type_id, pools, less, before) == may_collect_first(
                entries,
                trait_type_id,
                pools,
                less,
                before,
            ) by {
            lemma_first_entries(entries, all, trait_type_id, pools, less, before);
        }
        lemma_first_entries(entries, all, trait_type_id, pools, k as nat, out);
        if is_chosen(entries, trait_type_id, k) {
            if may_collect_first(all, trait_type_id, pools, n, out) {
                let (before, values) = choose|before: Seq<V>, values: Option<Seq<V>>|
                    #![trigger with_values(before, values)]
                    {
                        &&& may_collect_first(all, trait_type_id, pools, k as nat, before)
                        &&& all[k].collect_fn.may_collect(pools, values)
                        &&& out == with_values(before, values)
                    };
                assert(may_collect_first(entries, trait_type_id, pools, k as nat, before));
                assert(out == with_values(before, values));
            }
            if may_collect_first(entries, trait_type_id, pools, n, out) {
                let (before, values) = choose|before: Seq<V>, values: Option<Seq<V>>|
                    #![trigger with_values(before, values)]
                    {
                        &&& may_collect_first(entries, trait_type_id, pools, k as nat, before)
                        &&& entries[k].collect_fn.may_collect(pools, values)
                        &&& out == with_values(before, values)
                    };
                assert(may_collect_first(all, trait_type_id, pools, k as nat, before));
                assert(out == with_values(before, values));
            }
        }
    }
}

} // verus!
