use sassi::sassi::sealed::Sealed;
use sassi::sassi::trait_registry::{Collector, TraitImpl, TraitImplEntry};
use sassi::Sassi;

trait Demo: Send + Sync {}

struct Widget;
impl Demo for Widget {}
impl Sealed<dyn Demo> for Widget {}
impl TraitImpl<dyn Demo> for Widget {}

fn requires_marker<T: TraitImpl<dyn Demo>>() {}

#[test]
fn marker_bound_resolves_for_registered_pair() {
    requires_marker::<Widget>();
}

struct FromPool(u64);

impl Collector<Vec<String>, String> for FromPool {
    fn collect(&self, sassi: &Sassi<Vec<String>>) -> Option<Vec<String>> {
        Some(sassi.pool(self.0).cloned().unwrap_or_default())
    }
}

struct Broken;

impl Collector<Vec<String>, String> for Broken {
    fn collect(&self, _sassi: &Sassi<Vec<String>>) -> Option<Vec<String>> {
        None
    }
}

fn from_pool(trait_type_id: u64, model_type_id: u64) -> TraitImplEntry<Vec<String>, String> {
    TraitImplEntry { trait_type_id, model_type_id, collect_fn: Box::new(FromPool(model_type_id)) }
}

#[test]
fn collecting_walks_each_registered_model_once() {
    let mut sassi = Sassi::new();
    sassi.register(10, vec!["a".to_owned(), "b".to_owned()]);
    sassi.register(11, vec!["c".to_owned()]);
    let entries = vec![
        from_pool(1, 10),
        from_pool(2, 11),
        from_pool(1, 10),
        from_pool(1, 12),
        TraitImplEntry { trait_type_id: 1, model_type_id: 13, collect_fn: Box::new(Broken) },
        from_pool(1, 11),
    ];

    assert_eq!(sassi.all_impl(&entries, 1), vec!["a", "b", "c"]);
    assert_eq!(sassi.all_impl(&entries, 2), vec!["c"]);
    assert!(sassi.all_impl(&entries, 3).is_empty());
}

#[test]
fn registering_again_replaces_the_pool() {
    let mut sassi: Sassi<u32> = Sassi::default();
    assert!(sassi.pool(1).is_none());
    sassi.register(1, 5);
    sassi.register(1, 6);
    assert_eq!(sassi.pool(1), Some(&6));
}
