//! The pools of an application, each under the id of its model type.

use vstd::prelude::*;
use crate::sassi::trait_registry::{TraitImplEntry, TraitRegistry};
use std::collections::HashMap;

verus! {

broadcast use vstd::std_specs::hash::group_hash_axioms;

/// The pools of an application. `P` is a handle to a pool.
#[verifier::reject_recursive_types(P)]
pub struct Sassi<P> {
    pools: HashMap<u64, P>,
    trait_registry: TraitRegistry,
}

impl<P> Sassi<P> {
    /// For each model type its pool.
    pub closed spec fn pools(&self) -> Map<u64, P> {
        self.pools@
    }

    /// Starts without pools.
    pub fn new() -> (r: Self)
        ensures
            r.pools() == Map::<u64, P>::empty(),
    {
        Sassi { pools: HashMap::new(), trait_registry: TraitRegistry::new() }
    }

    /// Registers the pool of a model type. It replaces the pool that was registered
    /// before.
    pub fn register(&mut self, model_type_id: u64, pool: P)
        ensures
            final(self).pools() == old(self).pools().insert(model_type_id, pool),
    {
        self.pools.insert(model_type_id, pool);
    }

    /// Returns the pool of a model type.
    pub fn pool(&self, model_type_id: u64) -> (r: Option<&P>)
        ensures
            r is Some == self.pools().dom().contains(model_type_id),
            r matches Some(pool) ==> *pool == self.pools()[model_type_id],
    {
        self.pools.get(&model_type_id)
    }

    /// Collects the values of every model type that registered the trait.
    pub fn all_impl<V>(&self, entries: &Vec<TraitImplEntry<P, V>>, trait_type_id: u64) -> (r: Vec<
        V,
    >)
        ensures
            crate::sassi::trait_registry::may_collect_for(
                entries@,
                trait_type_id,
                self.pools(),
                r@,
            ),
    {
        self.trait_registry.collect_for(entries, trait_type_id, self)
    }
}

impl<P> Default for Sassi<P> {
    fn default() -> (r: Self)
        ensures
            r.pools() == Map::<u64, P>::empty(),
    {
        Sassi::new()
    }
}

} // verus!
