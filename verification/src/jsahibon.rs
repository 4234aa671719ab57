//! JSON values with exact numbers and ordered, duplicate-free objects.

use vstd::prelude::*;
use crate::json::binary64::{
    compare_i64_f64, compare_i64_u64, compare_u64_f64, is_finite, order_floats, reversed,
    NumberOrder,
};
use crate::text::{join2, same_text};

verus! {

/// Why a value could not be made.
#[non_exhaustive]
#[derive(Debug, Clone)]
pub enum JSahibONError {
    /// The number is infinite or not a number.
    NonFiniteF64,
    /// The number fits into no numeric variant.
    NumberOutOfRange(String),
    /// The value could not be converted.
    SerdeJson(String),
}

impl JSahibONError {
    /// What the error says.
    pub open spec fn message(&self) -> Seq<char> {
        match self {
            JSahibONError::NonFiniteF64 => "JSahibON only accepts finite f64 values"@,
            JSahibONError::NumberOutOfRange(text) =>
                "serde_json number is outside JSahibON's supported numeric range: "@ + text@,
            JSahibONError::SerdeJson(text) => "serde_json bridge error: "@ + text@,
        }
    }

    /// Renders the error.
    pub fn to_text(&self) -> (r: String)
        ensures
            r@ == self.message(),
    {
        let r = match self {
            JSahibONError::NonFiniteF64 => join2("JSahibON only accepts finite f64 values", ""),
            JSahibONError::NumberOutOfRange(text) => join2(
                "serde_json number is outside JSahibON's supported numeric range: ",
                text.as_str(),
            ),
            JSahibONError::SerdeJson(text) => join2("serde_json bridge error: ", text.as_str()),
        };
        proof {
            reveal_strlit("");
        }
        assert(r@ =~= self.message());
        r
    }
}

/// A finite binary64 number, by its bits.
#[derive(Clone, Copy, Debug)]
pub struct JFiniteF64 {
    bits: u64,
}

impl JFiniteF64 {
    /// The number is finite.
    #[verifier::type_invariant]
    pub closed spec fn inv(self) -> bool {
        crate::json::binary64::finite(self.bits)
    }

    /// The bits of the number.
    pub closed spec fn spec_bits(&self) -> u64 {
        self.bits
    }

    /// The exact value of the number, in units.
    pub open spec fn units(&self) -> int {
        crate::json::binary64::units(self.spec_bits())
    }

    /// Takes the bits of a finite number.
    pub fn try_new(bits: u64) -> (r: Result<Self, JSahibONError>)
        ensures
            match r {
                Ok(value) => crate::json::binary64::finite(bits) && value.spec_bits() == bits,
                Err(e) => !crate::json::binary64::finite(bits) && e is NonFiniteF64,
            },
    {
        if is_finite(bits) {
            Ok(JFiniteF64 { bits })
        } else {
            Err(JSahibONError::NonFiniteF64)
        }
    }

    /// Reads the bits.
    pub fn get(self) -> (r: u64)
        ensures
            r == self.spec_bits(),
            crate::json::binary64::finite(r),
    {
        proof {
            use_type_invariant(&self);
        }
        self.bits
    }
}

impl PartialEq for JFiniteF64 {
    fn eq(&self, other: &Self) -> (r: bool) {
        order_floats(self.bits, other.bits) == NumberOrder::Equal
    }
}

impl vstd::std_specs::cmp::PartialEqSpecImpl for JFiniteF64 {
    open spec fn obeys_eq_spec() -> bool {
        true
    }

    open spec fn eq_spec(&self, other: &Self) -> bool {
        self.units() == other.units()
    }
}

/// A JSON object: its keys are in the order in which they first came, each once.
#[derive(Debug)]
pub struct JObject {
    entries: Vec<(String, JSahibON)>,
}

/// A JSON value.
#[derive(Debug)]
pub enum JSahibON {
    /// Null.
    Null,
    /// A truth value.
    Bool(bool),
    /// A signed integer.
    I64(i64),
    /// An unsigned integer.
    U64(u64),
    /// A finite binary64 number.
    F64(JFiniteF64),
    /// A string.
    String(String),
    /// An array.
    Array(Vec<JSahibON>),
    /// An object.
    Object(JObject),
}

/// No two entries have the same key.
pub open spec fn distinct_keys(entries: Seq<(Seq<char>, JSahibON)>) -> bool {
    forall|i: int, j: int|
        0 <= i < j < entries.len() ==> (#[trigger] entries[i]).0 != (#[trigger] entries[j]).0
}

/// The place of `key`, or the number of entries where it has none.
pub open spec fn key_index(entries: Seq<(Seq<char>, JSahibON)>, key: Seq<char>) -> int
    decreases entries.len(),
{
    if entries.len() == 0 {
        0
    } else if entries[0].0 == key {
        0
    } else {
        1 + key_index(entries.drop_first(), key)
    }
}

/// Whether there is an entry for `key`.
pub open spec fn has_key(entries: Seq<(Seq<char>, JSahibON)>, key: Seq<char>) -> bool {
    exists|i: int| 0 <= i < entries.len() && (#[trigger] entries[i]).0 == key
}

/// What `key_index` finds.
pub proof fn lemma_key_index(entries: Seq<(Seq<char>, JSahibON)>, key: Seq<char>)
    ensures
        0 <= key_index(entries, key) <= entries.len(),
        has_key(entries, key) <==> key_index(entries, key) < entries.len(),
        key_index(entries, key) < entries.len() ==> entries[key_index(entries, key)].0 == key,
        forall|i: int| 0 <= i < key_index(entries, key) ==> (#[trigger] entries[i]).0 != key,
    decreases entries.len(),
{
    if entries.len() > 0 && entries[0].0 != key {
        let rest = entries.drop_first();
        lemma_key_index(rest, key);
        assert forall|i: int| 0 <= i < key_index(entries, key) implies (#[trigger] entries[i]).0
            != key by {
            if i > 0 {
                assert(rest[i - 1] == entries[i]);
            }
        }
        if has_key(entries, key) {
            let i = choose|i: int| 0 <= i < entries.len() && (#[trigger] entries[i]).0 == key;
            assert(rest[i - 1].0 == key);
        }
        if key_index(rest, key) < rest.len() {
            assert(rest[key_index(rest, key)] == entries[key_index(entries, key)]);
        }
    }
}

/// The entries with their keys as text.
pub open spec fn keyed(entries: Seq<(String, JSahibON)>) -> Seq<(Seq<char>, JSahibON)> {
    Seq::new(entries.len(), |i: int| (entries[i].0@, entries[i].1))
}

/// The entries with `key` bound to `value`: a known key keeps its place, a new
/// one comes last.
pub open spec fn bound(
    entries: Seq<(Seq<char>, JSahibON)>,
    key: Seq<char>,
    value: JSahibON,
) -> Seq<(Seq<char>, JSahibON)> {
    if has_key(entries, key) {
        entries.update(key_index(entries, key), (key, value))
    } else {
        entries.push((key, value))
    }
}

/// The entries that binding `pairs` one after the other leaves.
pub open spec fn bound_all(pairs: Seq<(String, JSahibON)>) -> Seq<(Seq<char>, JSahibON)>
    decreases pairs.len(),
{
    if pairs.len() == 0 {
        Seq::empty()
    } else {
        bound(bound_all(pairs.drop_last()), pairs.last().0@, pairs.last().1)
    }
}

/// What `key` is bound to.
pub open spec fn lookup(entries: Seq<(Seq<char>, JSahibON)>, key: Seq<char>) -> Option<JSahibON> {
    if has_key(entries, key) {
        Some(entries[key_index(entries, key)].1)
    } else {
        None
    }
}

impl View for JObject {
    type V = Seq<(Seq<char>, JSahibON)>;

    /// The keys and values in order.
    closed spec fn view(&self) -> Seq<(Seq<char>, JSahibON)> {
        keyed(self.entries@)
    }
}

impl JObject {
    /// No two entries have the same key.
    #[verifier::type_invariant]
    spec fn inv(self) -> bool {
        distinct_keys(keyed(self.entries@))
    }

    /// Makes an object without entries.
    pub fn new() -> (r: Self)
        ensures
            r@ == Seq::<(Seq<char>, JSahibON)>::empty(),
    {
        JObject { entries: Vec::new() }
    }

    /// Finds the place of `key`, or the number of entries where it has none.
    fn position(&self, key: &str) -> (r: usize)
        ensures
            r == key_index(self@, key@),
    {
        let mut i: usize = 0;
        let n = self.entries.len();
        proof {
            lemma_key_index(self@, key@);
        }
        while i < n
            invariant
                i <= n,
                n == self.entries@.len(),
                n == self@.len(),
                forall|j: int| 0 <= j < i ==> (#[trigger] self@[j]).0 != key@,
                0 <= key_index(self@, key@) <= n,
                key_index(self@, key@) < n ==> self@[key_index(self@, key@)].0 == key@,
                forall|j: int| 0 <= j < key_index(self@, key@) ==> (#[trigger] self@[j]).0 != key@,
            decreases n - i,
        {
            assert(self@[i as int].0 == self.entries@[i as int].0@);
            if same_text(self.entries[i].0.as_str(), key) {
                return i;
            }
            i += 1;
        }
        n
    }

    /// Binds `key` to `value`. A known key keeps its place, and what it was
    /// bound to is handed back; a new one comes last.
    pub fn insert(&mut self, key: String, value: JSahibON) -> (r: Option<JSahibON>)
        ensures
            final(self)@ == bound(old(self)@, key@, value),
            r == lookup(old(self)@, key@),
    {
        proof {
            use_type_invariant(&*self);
            lemma_key_index(self@, key@);
            lemma_bound_keeps_distinct(self@, key@, value);
        }
        let i = self.position(key.as_str());
        let ghost before = self.entries@;
        let mut entries: Vec<(String, JSahibON)> = Vec::new();
        core::mem::swap(&mut self.entries, &mut entries);
        let replaced = if i < entries.len() {
            Some(put(&mut entries, i, (key, value)).1)
        } else {
            entries.push((key, value));
            None
        };
        assert(keyed(entries@) =~= bound(keyed(before), key@, value));
        self.entries = entries;
        replaced
    }

    /// Makes an object of pairs. A key that comes again replaces the value and
    /// leaves the key where it is.
    pub fn from_entries(entries: Vec<(String, JSahibON)>) -> (r: Self)
        ensures
            r@ == bound_all(entries@),
    {
        let ghost all = entries@;
        let mut object = JObject::new();
        for entry in it: entries
            invariant
                it.seq() == all,
                object@ == bound_all(all.take(it.index() as int)),
        {
            assert(all.take(it.index() + 1).drop_last() =~= all.take(it.index() as int));
            let _replaced = object.insert(entry.0, entry.1);
        }
        assert(all.take(all.len() as int) =~= all);
        object
    }

    /// Reads what `key` is bound to.
    pub fn get(&self, key: &str) -> (r: Option<&JSahibON>)
        ensures
            r is Some == has_key(self@, key@),
            r matches Some(value) ==> lookup(self@, key@) == Some(*value),
    {
        proof {
            lemma_key_index(self@, key@);
        }
        let i = self.position(key);
        if i < self.entries.len() {
            Some(&self.entries[i].1)
        } else {
            None
        }
    }

    /// Walks the entries in order.
    pub fn iter(&self) -> (r: core::slice::Iter<'_, (String, JSahibON)>)
        ensures
            keyed(vstd::std_specs::iter::IteratorSpec::remaining(&r).unref()) == self@,
    {
        self.entries.iter()
    }

    /// Counts the keys.
    pub fn len(&self) -> (r: usize)
        ensures
            r == self@.len(),
    {
        self.entries.len()
    }

    /// Tells whether there are no keys.
    pub fn is_empty(&self) -> (r: bool)
        ensures
            r == (self@.len() == 0),
    {
        self.entries.len() == 0
    }

    /// Reads the key and the value at place `i`.
    pub fn entry_at(&self, i: usize) -> (r: (&String, &JSahibON))
        requires
            i < self@.len(),
        ensures
            (r.0@, *r.1) == self@[i as int],
    {
        let entry = &self.entries[i];
        (&entry.0, &entry.1)
    }
}

impl Default for JObject {
    fn default() -> (r: Self)
        ensures
            r@ == Seq::<(Seq<char>, JSahibON)>::empty(),
    {
        JObject::new()
    }
}

/// The exact value of a number, in units; `None` of what is no number.
pub open spec fn numeric(value: JSahibON) -> Option<int> {
    match value {
        JSahibON::I64(n) => Some(crate::json::binary64::integer_units(n as int)),
        JSahibON::U64(n) => Some(crate::json::binary64::integer_units(n as int)),
        JSahibON::F64(f) => Some(f.units()),
        _ => None,
    }
}

/// Whether two values are equal: numbers by their exact value in whatever
/// variant, objects whatever the order of their keys.
pub closed spec fn json_eq(left: JSahibON, right: JSahibON) -> bool
    decreases left,
{
    match (left, right) {
        (JSahibON::Null, JSahibON::Null) => true,
        (JSahibON::Bool(a), JSahibON::Bool(b)) => a == b,
        (JSahibON::String(a), JSahibON::String(b)) => a@ == b@,
        (JSahibON::Array(a), JSahibON::Array(b)) => {
            &&& a@.len() == b@.len()
            &&& forall|i: int| 0 <= i < a@.len() ==> json_eq(#[trigger] a@[i], b@[i])
        },
        (JSahibON::Object(a), JSahibON::Object(b)) => {
            &&& a.entries@.len() == b.entries@.len()
            &&& forall|i: int|
                0 <= i < a.entries@.len() ==> {
                    &&& has_key(b@, a.entries@[i].0@)
                    &&& json_eq(
                        (#[trigger] a.entries@[i]).1,
                        b@[key_index(b@, a.entries@[i].0@)].1,
                    )
                }
        },
        _ => numeric(left) is Some && numeric(left) == numeric(right),
    }
}

/// What equality of values comes to.
pub proof fn json_eq_unfolds(left: JSahibON, right: JSahibON)
    ensures
        json_eq(left, right) == match (left, right) {
            (JSahibON::Null, JSahibON::Null) => true,
            (JSahibON::Bool(a), JSahibON::Bool(b)) => a == b,
            (JSahibON::String(a), JSahibON::String(b)) => a@ == b@,
            (JSahibON::Array(a), JSahibON::Array(b)) => {
                &&& a@.len() == b@.len()
                &&& forall|i: int| 0 <= i < a@.len() ==> json_eq(#[trigger] a@[i], b@[i])
            },
            (JSahibON::Object(a), JSahibON::Object(b)) => {
                &&& a@.len() == b@.len()
                &&& forall|i: int|
                    0 <= i < a@.len() ==> {
                        &&& has_key(b@, a@[i].0)
                        &&& json_eq((#[trigger] a@[i]).1, b@[key_index(b@, a@[i].0)].1)
                    }
            },
            _ => numeric(left) is Some && numeric(left) == numeric(right),
        },
{
    match (left, right) {
        (JSahibON::Object(a), JSahibON::Object(b)) => {
            let e = a.entries@;
            assert(a@.len() == e.len());
            assert forall|i: int| 0 <= i < e.len() implies
                #[trigger] a@[i] == (e[i].0@, e[i].1) by {}
            if json_eq(left, right) {
                assert forall|i: int| 0 <= i < a@.len() implies {
                    &&& has_key(b@, a@[i].0)
                    &&& json_eq((#[trigger] a@[i]).1, b@[key_index(b@, a@[i].0)].1)
                } by {
                    assert(has_key(b@, e[i].0@));
                    assert(json_eq(e[i].1, b@[key_index(b@, e[i].0@)].1));
                }
            } else if a@.len() == b@.len() {
                let i = choose|i: int|
                    0 <= i < e.len() && !(has_key(b@, e[i].0@) && json_eq(
                        (#[trigger] e[i]).1,
                        b@[key_index(b@, e[i].0@)].1,
                    ));
                assert(a@[i] == (e[i].0@, e[i].1));
            }
        },
        _ => {},
    }
}

/// Compares two numbers exactly; `None` where one is no number.
pub fn compare_jsahibon_numbers(left: &JSahibON, right: &JSahibON) -> (r: Option<NumberOrder>)
    ensures
        r == match (numeric(*left), numeric(*right)) {
            (Some(a), Some(b)) => Some(crate::json::binary64::order_of(a, b)),
            _ => None::<NumberOrder>,
        },
{
    match (left, right) {
        (JSahibON::I64(a), JSahibON::I64(b)) => {
            proof {
                crate::json::binary64::integers_compare_in_units(*a as int, *b as int);
            }
            Some(if *a < *b {
                NumberOrder::Less
            } else if *a == *b {
                NumberOrder::Equal
            } else {
                NumberOrder::Greater
            })
        },
        (JSahibON::U64(a), JSahibON::U64(b)) => {
            proof {
                crate::json::binary64::integers_compare_in_units(*a as int, *b as int);
            }
            Some(if *a < *b {
                NumberOrder::Less
            } else if *a == *b {
                NumberOrder::Equal
            } else {
                NumberOrder::Greater
            })
        },
        (JSahibON::F64(a), JSahibON::F64(b)) => Some(order_floats(a.bits, b.bits)),
        (JSahibON::I64(a), JSahibON::U64(b)) => {
            proof {
                crate::json::binary64::integers_compare_in_units(*a as int, *b as int);
            }
            Some(compare_i64_u64(*a, *b))
        },
        (JSahibON::U64(a), JSahibON::I64(b)) => {
            proof {
                crate::json::binary64::integers_compare_in_units(*b as int, *a as int);
            }
            Some(reversed(compare_i64_u64(*b, *a)))
        },
        (JSahibON::I64(a), JSahibON::F64(b)) => Some(compare_i64_f64(*a, b.bits)),
        (JSahibON::F64(a), JSahibON::I64(b)) => Some(reversed(compare_i64_f64(*b, a.bits))),
        (JSahibON::U64(a), JSahibON::F64(b)) => Some(compare_u64_f64(*a, b.bits)),
        (JSahibON::F64(a), JSahibON::U64(b)) => Some(reversed(compare_u64_f64(*b, a.bits))),
        _ => None,
    }
}

impl JSahibON {
    /// Makes a number of the bits of a finite one.
    pub fn try_f64(bits: u64) -> (r: Result<Self, JSahibONError>)
        ensures
            match r {
                Ok(value) => crate::json::binary64::finite(bits) && (value matches JSahibON::F64(f)
                    && f.spec_bits() == bits),
                Err(e) => !crate::json::binary64::finite(bits) && e is NonFiniteF64,
            },
    {
        match JFiniteF64::try_new(bits) {
            Ok(value) => Ok(JSahibON::F64(value)),
            Err(e) => Err(e),
        }
    }

    /// Tells whether two values are equal.
    pub fn same(&self, other: &JSahibON) -> (r: bool)
        ensures
            r == json_eq(*self, *other),
        decreases self,
    {
        match (self, other) {
            (JSahibON::Null, JSahibON::Null) => true,
            (JSahibON::Bool(a), JSahibON::Bool(b)) => *a == *b,
            (JSahibON::String(a), JSahibON::String(b)) => same_text(a.as_str(), b.as_str()),
            (JSahibON::Array(a), JSahibON::Array(b)) => Self::same_arrays(a, b),
            (JSahibON::Object(a), JSahibON::Object(b)) => Self::same_objects(a, b),
            _ => match compare_jsahibon_numbers(self, other) {
                Some(order) => order == NumberOrder::Equal,
                None => false,
            },
        }
    }

    fn same_arrays(a: &Vec<JSahibON>, b: &Vec<JSahibON>) -> (r: bool)
        ensures
            r == (a@.len() == b@.len() && forall|i: int|
                0 <= i < a@.len() ==> json_eq(#[trigger] a@[i], b@[i])),
        decreases a,
    {
        if a.len() != b.len() {
            return false;
        }
        let mut i: usize = 0;
        while i < a.len()
            invariant
                i <= a@.len(),
                a@.len() == b@.len(),
                forall|j: int| 0 <= j < i ==> json_eq(#[trigger] a@[j], b@[j]),
            decreases a@.len() - i,
        {
            assert(decreases_to!(*a => a[i as int]));
            if !a[i].same(&b[i]) {
                return false;
            }
            i += 1;
        }
        true
    }

    fn same_objects(a: &JObject, b: &JObject) -> (r: bool)
        ensures
            r == (a.entries@.len() == b.entries@.len() && forall|i: int|
                0 <= i < a.entries@.len() ==> {
                    &&& has_key(b@, a.entries@[i].0@)
                    &&& json_eq(
                        (#[trigger] a.entries@[i]).1,
                        b@[key_index(b@, a.entries@[i].0@)].1,
                    )
                }),
        decreases a,
    {
        if a.entries.len() != b.entries.len() {
            return false;
        }
        let mut i: usize = 0;
        while i < a.entries.len()
            invariant
                i <= a.entries@.len(),
                a.entries@.len() == b.entries@.len(),
                forall|j: int|
                    0 <= j < i ==> {
                        &&& has_key(b@, a.entries@[j].0@)
                        &&& json_eq(
                            (#[trigger] a.entries@[j]).1,
                            b@[key_index(b@, a.entries@[j].0@)].1,
                        )
                    },
            decreases a.entries@.len() - i,
        {
            let entry = &a.entries[i];
            assert(decreases_to!(*a => a.entries));
            assert(decreases_to!(a.entries => a.entries[i as int]));
            assert(decreases_to!(a.entries[i as int] => a.entries[i as int].1));
            match b.get(entry.0.as_str()) {
                Some(value) => {
                    if !entry.1.same(value) {
                        return false;
                    }
                },
                None => {
                    return false;
                },
            }
            i += 1;
        }
        true
    }
}

impl PartialEq for JSahibON {
    fn eq(&self, other: &Self) -> (r: bool) {
        self.same(other)
    }
}

impl vstd::std_specs::cmp::PartialEqSpecImpl for JSahibON {
    open spec fn obeys_eq_spec() -> bool {
        true
    }

    open spec fn eq_spec(&self, other: &Self) -> bool {
        json_eq(*self, *other)
    }
}

impl PartialEq for JObject {
    fn eq(&self, other: &Self) -> (r: bool) {
        JSahibON::same_objects(self, other)
    }
}

impl vstd::std_specs::cmp::PartialEqSpecImpl for JObject {
    open spec fn obeys_eq_spec() -> bool {
        true
    }

    open spec fn eq_spec(&self, other: &Self) -> bool {
        json_eq(JSahibON::Object(*self), JSahibON::Object(*other))
    }
}

/// Binding a key leaves no key twice.
proof fn lemma_bound_keeps_distinct(
    entries: Seq<(Seq<char>, JSahibON)>,
    key: Seq<char>,
    value: JSahibON,
)
    requires
        distinct_keys(entries),
    ensures
        distinct_keys(bound(entries, key, value)),
{
    lemma_key_index(entries, key);
    let after = bound(entries, key, value);
    assert forall|i: int, j: int| 0 <= i < j < after.len() implies (#[trigger] after[i]).0 != (
    #[trigger] after[j]).0 by {
        if has_key(entries, key) {
            assert(after[i].0 == entries[i].0);
            assert(after[j].0 == entries[j].0);
        } else if j < entries.len() {
            assert(after[i] == entries[i] && after[j] == entries[j]);
        } else {
            assert(after[i] == entries[i]);
        }
    }
}

/// No object in the value has a key twice, at any depth. The library builds no
/// other values.
pub closed spec fn well_formed(value: JSahibON) -> bool
    decreases value,
{
    match value {
        JSahibON::Array(items) => forall|i: int|
            0 <= i < items@.len() ==> well_formed(#[trigger] items@[i]),
        JSahibON::Object(object) => {
            &&& distinct_keys(object@)
            &&& forall|i: int|
                0 <= i < object.entries@.len() ==> well_formed((#[trigger] object.entries@[i]).1)
        },
        _ => true,
    }
}

/// A distinct key is found where it is.
proof fn lemma_distinct_index(entries: Seq<(Seq<char>, JSahibON)>, i: int)
    requires
        distinct_keys(entries),
        0 <= i < entries.len(),
    ensures
        has_key(entries, entries[i].0),
        key_index(entries, entries[i].0) == i,
{
    lemma_key_index(entries, entries[i].0);
    assert(has_key(entries, entries[i].0));
    let k = key_index(entries, entries[i].0);
    if k < i {
        assert(entries[k].0 != entries[i].0);
    }
    if i < k {
        assert(entries[i].0 != entries[i].0);
    }
}

/// Every value equals itself.
pub proof fn json_equality_is_reflexive(value: JSahibON)
    requires
        well_formed(value),
    ensures
        json_eq(value, value),
    decreases value,
{
    match value {
        JSahibON::Array(items) => {
            assert forall|i: int| 0 <= i < items@.len() implies json_eq(
                #[trigger] items@[i],
                items@[i],
            ) by {
                json_equality_is_reflexive(items@[i]);
            }
        },
        JSahibON::Object(object) => {
            let e = object.entries@;
            assert forall|i: int| 0 <= i < e.len() implies has_key(object@, e[i].0@) && json_eq(
                (#[trigger] e[i]).1,
                object@[key_index(object@, e[i].0@)].1,
            ) by {
                assert(object@[i] == (e[i].0@, e[i].1));
                lemma_distinct_index(object@, i);
                json_equality_is_reflexive(e[i].1);
            }
        },
        _ => {},
    }
}

/// Where one object has every key of another of the same size, the other has
/// every key of the one.
proof fn lemma_same_keys(
    a: Seq<(Seq<char>, JSahibON)>,
    b: Seq<(Seq<char>, JSahibON)>,
    j: int,
)
    requires
        distinct_keys(a),
        distinct_keys(b),
        a.len() == b.len(),
        forall|i: int| 0 <= i < a.len() ==> has_key(b, (#[trigger] a[i]).0),
        0 <= j < b.len(),
    ensures
        has_key(a, b[j].0),
{
    let ka = Seq::new(a.len(), |i: int| a[i].0);
    let kb = Seq::new(b.len(), |i: int| b[i].0);
    assert(ka.no_duplicates()) by {
        assert forall|i: int, k: int| 0 <= i < ka.len() && 0 <= k < ka.len() && i != k implies ka[i]
            != ka[k] by {
            if i < k {
                assert(a[i].0 != a[k].0);
            } else {
                assert(a[k].0 != a[i].0);
            }
        }
    }
    assert(kb.no_duplicates()) by {
        assert forall|i: int, k: int| 0 <= i < kb.len() && 0 <= k < kb.len() && i != k implies kb[i]
            != kb[k] by {
            if i < k {
                assert(b[i].0 != b[k].0);
            } else {
                assert(b[k].0 != b[i].0);
            }
        }
    }
    ka.unique_seq_to_set();
    kb.unique_seq_to_set();
    assert(ka.to_set().subset_of(kb.to_set())) by {
        assert forall|k: Seq<char>| ka.to_set().contains(k) implies kb.to_set().contains(k) by {
            let i = choose|i: int| 0 <= i < ka.len() && ka[i] == k;
            assert(has_key(b, a[i].0));
            let l = choose|l: int| 0 <= l < b.len() && (#[trigger] b[l]).0 == a[i].0;
            assert(kb[l] == k);
        }
    }
    vstd::set_lib::lemma_subset_equality(ka.to_set(), kb.to_set());
    assert(kb[j] == b[j].0);
    assert(kb.to_set().contains(b[j].0));
    assert(ka.contains(b[j].0));
    let i = choose|i: int| 0 <= i < ka.len() && ka[i] == b[j].0;
    assert(a[i].0 == b[j].0);
}

/// Equality goes both ways.
pub proof fn json_equality_is_symmetric(left: JSahibON, right: JSahibON)
    requires
        well_formed(left),
        well_formed(right),
        json_eq(left, right),
    ensures
        json_eq(right, left),
    decreases left,
{
    match (left, right) {
        (JSahibON::Array(a), JSahibON::Array(b)) => {
            assert forall|i: int| 0 <= i < b@.len() implies json_eq(#[trigger] b@[i], a@[i]) by {
                assert(json_eq(a@[i], b@[i]));
                json_equality_is_symmetric(a@[i], b@[i]);
            }
        },
        (JSahibON::Object(a), JSahibON::Object(b)) => {
            let e = a.entries@;
            let f = b.entries@;
            assert(a@.len() == e.len() && b@.len() == f.len());
            assert forall|i: int| 0 <= i < a@.len() implies has_key(b@, (#[trigger] a@[i]).0) by {
                assert(a@[i] == (e[i].0@, e[i].1));
                assert(has_key(b@, e[i].0@));
            }
            assert forall|j: int| 0 <= j < f.len() implies has_key(a@, f[j].0@) && json_eq(
                (#[trigger] f[j]).1,
                a@[key_index(a@, f[j].0@)].1,
            ) by {
                assert(b@[j] == (f[j].0@, f[j].1));
                lemma_same_keys(a@, b@, j);
                let i = key_index(a@, f[j].0@);
                lemma_key_index(a@, f[j].0@);
                assert(a@[i] == (e[i].0@, e[i].1));
                lemma_distinct_index(b@, j);
                assert(json_eq(e[i].1, b@[key_index(b@, e[i].0@)].1));
                assert(well_formed(f[j].1));
                json_equality_is_symmetric(e[i].1, f[j].1);
            }
        },
        _ => {},
    }
}

/// Two values that equal a third equal each other.
pub proof fn json_equality_is_transitive(a: JSahibON, b: JSahibON, c: JSahibON)
    requires
        well_formed(b),
        well_formed(c),
        json_eq(a, b),
        json_eq(b, c),
    ensures
        json_eq(a, c),
    decreases a,
{
    match (a, b, c) {
        (JSahibON::Array(x), JSahibON::Array(y), JSahibON::Array(z)) => {
            assert forall|i: int| 0 <= i < x@.len() implies json_eq(#[trigger] x@[i], z@[i]) by {
                assert(json_eq(x@[i], y@[i]));
                assert(json_eq(y@[i], z@[i]));
                json_equality_is_transitive(x@[i], y@[i], z@[i]);
            }
        },
        (JSahibON::Object(x), JSahibON::Object(y), JSahibON::Object(z)) => {
            let e = x.entries@;
            let f = y.entries@;
            assert forall|i: int| 0 <= i < e.len() implies has_key(z@, e[i].0@) && json_eq(
                (#[trigger] e[i]).1,
                z@[key_index(z@, e[i].0@)].1,
            ) by {
                assert(has_key(y@, e[i].0@));
                lemma_key_index(y@, e[i].0@);
                let j = key_index(y@, e[i].0@);
                assert(y@[j] == (f[j].0@, f[j].1));
                assert(json_eq(f[j].1, z@[key_index(z@, f[j].0@)].1));
                assert(has_key(z@, f[j].0@));
                lemma_key_index(z@, f[j].0@);
                let k = key_index(z@, f[j].0@);
                assert(z@[k] == (z.entries@[k].0@, z.entries@[k].1));
                assert(well_formed(f[j].1));
                assert(well_formed(z.entries@[k].1));
                json_equality_is_transitive(e[i].1, f[j].1, z.entries@[k].1);
            }
        },
        _ => {},
    }
}

/// A key reads back what it was bound to, and no other key is touched.
pub proof fn binding_reads_back(
    entries: Seq<(Seq<char>, JSahibON)>,
    key: Seq<char>,
    value: JSahibON,
    other: Seq<char>,
)
    requires
        distinct_keys(entries),
    ensures
        lookup(bound(entries, key, value), key) == Some(value),
        other != key ==> lookup(bound(entries, key, value), other) == lookup(entries, other),
        distinct_keys(bound(entries, key, value)),
{
    let after = bound(entries, key, value);
    lemma_bound_keeps_distinct(entries, key, value);
    lemma_key_index(entries, key);
    lemma_key_index(entries, other);
    lemma_key_index(after, other);
    let at = if has_key(entries, key) {
        key_index(entries, key)
    } else {
        entries.len() as int
    };
    assert(after[at] == (key, value));
    lemma_distinct_index(after, at);
    if other != key {
        if has_key(entries, other) {
            let i = key_index(entries, other);
            assert(after[i] == entries[i]);
            lemma_distinct_index(after, i);
        } else {
            if has_key(after, other) {
                let i = key_index(after, other);
                assert(i != at);
                assert(entries[i] == after[i]);
            }
        }
    }
}

/// Binding a known key moves no key.
pub proof fn rebinding_keeps_the_order(
    entries: Seq<(Seq<char>, JSahibON)>,
    key: Seq<char>,
    value: JSahibON,
    i: int,
)
    requires
        0 <= i < entries.len(),
    ensures
        bound(entries, key, value)[i].0 == entries[i].0,
{
    lemma_key_index(entries, key);
}

/// Two numbers are equal exactly where they compare as the same.
pub proof fn equal_numbers_compare_as_equal(left: JSahibON, right: JSahibON)
    requires
        numeric(left) is Some,
        numeric(right) is Some,
    ensures
        json_eq(left, right) <==> crate::json::binary64::order_of(
            numeric(left)->Some_0,
            numeric(right)->Some_0,
        ) == NumberOrder::Equal,
{
}

/// Puts `entry` at place `i` and hands back what was there.
fn put(entries: &mut Vec<(String, JSahibON)>, i: usize, entry: (String, JSahibON)) -> (r: (
    String,
    JSahibON,
))
    requires
        i < old(entries)@.len(),
    ensures
        r == old(entries)@[i as int],
        final(entries)@ == old(entries)@.update(i as int, entry),
{
    let mut entry = entry;
    core::mem::swap(&mut entries[i], &mut entry);
    entry
}

/// An object that is made of pairs binds a key to what the last pair of it says, and has no
/// other keys than the pairs.
pub proof fn last_pair_of_a_key_wins(pairs: Seq<(String, JSahibON)>, key: Seq<char>)
    ensures
        distinct_keys(bound_all(pairs)),
        match lookup(bound_all(pairs), key) {
            Some(value) => exists|i: int|
                0 <= i < pairs.len() && (#[trigger] pairs[i]).0@ == key && pairs[i].1 == value
                    && forall|j: int| i < j < pairs.len() ==> (#[trigger] pairs[j]).0@ != key,
            None => forall|i: int| 0 <= i < pairs.len() ==> (#[trigger] pairs[i]).0@ != key,
        },
    decreases pairs.len(),
{
    if pairs.len() > 0 {
        let front = pairs.drop_last();
        last_pair_of_a_key_wins(front, key);
        let last = pairs.last();
        binding_reads_back(bound_all(front), last.0@, last.1, key);
        if last.0@ == key {
            assert(pairs[pairs.len() - 1].0@ == key);
        } else {
            match lookup(bound_all(front), key) {
                Some(value) => {
                    let i = choose|i: int|
                        0 <= i < front.len() && (#[trigger] front[i]).0@ == key && front[i].1
                            == value && forall|j: int|
                            i < j < front.len() ==> (#[trigger] front[j]).0@ != key;
                    assert(pairs[i] == front[i]);
                    assert forall|j: int| i < j < pairs.len() implies (#[trigger] pairs[j]).0@
                        != key by {
                        if j < front.len() {
                            assert(front[j].0@ != key);
                        }
                    }
                },
                None => {
                    assert forall|i: int| 0 <= i < pairs.len() implies (#[trigger] pairs[i]).0@
                        != key by {
                        if i < front.len() {
                            assert(front[i].0@ != key);
                        }
                    }
                },
            }
        }
    }
}

} // verus!
