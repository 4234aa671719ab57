//! What a type needs to live in a pool, and how its fields are reached.

use vstd::prelude::*;
use std::marker::PhantomData;
use std::sync::Arc;

verus! {

/// A value with a canonical identity.
pub trait Cacheable: Sized {
    /// The named fields of the type.
    type Fields;

    /// The fields of the type. An implementation says which; so for the other two.
    open spec fn spec_fields() -> Self::Fields {
        arbitrary()
    }

    /// The name under which values of the type are stored.
    open spec fn spec_type_label() -> Seq<char> {
        arbitrary()
    }

    /// The identity of the value.
    open spec fn spec_id(&self) -> i64 {
        arbitrary()
    }

    /// Returns the identity of the value.
    fn id(&self) -> (r: i64)
        ensures
            r == self.spec_id(),
    ;

    /// Returns the fields of the type.
    fn fields() -> (r: Self::Fields)
        ensures
            r == Self::spec_fields(),
    ;

    /// Returns the name under which values of the type are stored.
    fn cache_type_name() -> (r: &'static str)
        ensures
            r@ == Self::spec_type_label(),
    ;
}

/// A way from a value to one of its fields.
pub trait Extract<T, V>: Send + Sync {
    /// The field of `value`. An implementation says which.
    open spec fn field_of(&self, value: T) -> V {
        arbitrary()
    }

    /// Returns the field of `value`.
    fn extract<'a>(&self, value: &'a T) -> (r: &'a V)
        ensures
            *r == self.field_of(*value),
    ;
}

/// `f` takes every value, and gives the same field each time.
pub open spec fn is_accessor<T, V, F: for<'a> Fn(&'a T) -> &'a V>(f: F) -> bool {
    &&& forall|value: &T| #[trigger] f.requires((value,))
    &&& forall|value: &T, a: &V, b: &V|
        #[trigger] f.ensures((value,), a) && #[trigger] f.ensures((value,), b) ==> a == b
}

/// A function as a way to a field.
#[verifier::reject_recursive_types(T)]
#[verifier::reject_recursive_types(V)]
#[verifier::reject_recursive_types(F)]
struct Accessor<T, V, F: for<'a> Fn(&'a T) -> &'a V> {
    f: F,
    marker: PhantomData<(T, V)>,
}

impl<T, V, F: for<'a> Fn(&'a T) -> &'a V> Accessor<T, V, F> {
    #[verifier::type_invariant]
    spec fn inv(self) -> bool {
        is_accessor::<T, V, F>(self.f)
    }
}

impl<T: Send + Sync, V: Send + Sync, F: for<'a> Fn(&'a T) -> &'a V + Send + Sync> Extract<
    T,
    V,
> for Accessor<T, V, F> {
    closed spec fn field_of(&self, value: T) -> V {
        *choose|field: &V| self.f.ensures((&value,), field)
    }

    fn extract<'a>(&self, value: &'a T) -> (r: &'a V) {
        proof {
            use_type_invariant(self);
        }
        let r = (self.f)(value);
        assert(self.f.ensures((value,), r));
        r
    }
}

/// A way to a field that a field holds.
#[verifier::reject_recursive_types(E)]
struct Held<E> {
    extract: E,
}

impl<T, V, E: Extract<T, V>> Extract<T, V> for Held<E> {
    closed spec fn field_of(&self, value: T) -> V {
        self.extract.field_of(value)
    }

    fn extract<'a>(&self, value: &'a T) -> (r: &'a V) {
        self.extract.extract(value)
    }
}

/// A named field of a type.
#[verifier::reject_recursive_types(T)]
#[verifier::reject_recursive_types(V)]
pub struct Field<T, V> {
    name: &'static str,
    extract: Arc<Box<dyn Extract<T, V>>>,
}

impl<T: Send + Sync + 'static, V: Send + Sync + 'static> Field<T, V> {
    /// The name of the field.
    pub closed spec fn spec_name(&self) -> Seq<char> {
        self.name@
    }

    /// The field of `value`.
    pub closed spec fn of(&self, value: T) -> V {
        self.extract.field_of(value)
    }

    /// Names the field that `f` reaches. What the field of a value is follows from what
    /// `f` gives for it; `with_extract` names a field of which it is known beforehand.
    pub fn new<F: for<'a> Fn(&'a T) -> &'a V + Send + Sync + 'static>(
        name: &'static str,
        f: F,
    ) -> (r: Self)
        requires
            is_accessor::<T, V, F>(f),
        ensures
            r.spec_name() == name@,
            forall|value: &T, field: &V| #[trigger]
                f.ensures((value,), field) ==> r.of(*value) == *field,
    {
        let accessor: Accessor<T, V, F> = Accessor { f, marker: PhantomData };
        let ghost g = accessor;
        let r = Field::with_extract(name, accessor);
        assert forall|value: &T, field: &V| #[trigger] f.ensures((value,), field) implies r.of(
            *value,
        ) == *field by {
            assert(r.of(*value) == g.field_of(*value));
            let chosen = choose|c: &V| f.ensures((value,), c);
            assert(f.ensures((value,), chosen));
        }
        r
    }

    /// Names the field that `extract` reaches.
    pub fn with_extract<E: Extract<T, V> + 'static>(name: &'static str, extract: E) -> (r: Self)
        ensures
            r.spec_name() == name@,
            forall|value: T| #[trigger] r.of(value) == extract.field_of(value),
    {
        let held: Held<E> = Held { extract };
        let ghost g = held;
        let boxed: Box<dyn Extract<T, V>> = Box::new(held);
        assert forall|value: T| #[trigger] boxed.field_of(value) == g.field_of(value) by {}
        let shared = Arc::new(boxed);
        Field { name, extract: shared }
    }

    /// Reads the name of the field.
    pub fn name(&self) -> (r: &'static str)
        ensures
            r@ == self.spec_name(),
    {
        self.name
    }

    /// Reads the field of `value`.
    pub fn get<'a>(&self, value: &'a T) -> (r: &'a V)
        ensures
            *r == self.of(*value),
    {
        self.extract.extract(value)
    }
}

impl<T, V> Clone for Field<T, V> {
    fn clone(&self) -> (r: Self)
        ensures
            r == *self,
    {
        Field { name: self.name, extract: self.extract.clone() }
    }
}

} // verus!
