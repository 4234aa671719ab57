//! Keys by which values are grouped.

use vstd::prelude::*;
use crate::text::same_text;

verus! {

/// What a key stands for: two keys are the same where these are equal.
pub enum KeyValue {
    /// An integer.
    Number(int),
    /// A truth value.
    Flag(bool),
    /// A character.
    Character(char),
    /// A text.
    Text(Seq<char>),
    /// No key.
    Absent,
    /// A key that may be absent.
    Present(Box<KeyValue>),
    /// Two keys.
    Pair(Box<KeyValue>, Box<KeyValue>),
}

/// A key by which values are grouped.
pub trait QueryKey: Sized {
    /// What the key stands for. An implementation says what.
    open spec fn key_value(&self) -> KeyValue {
        arbitrary()
    }

    /// Tells whether the keys are the same.
    fn same_key(&self, other: &Self) -> (r: bool)
        ensures
            r == (self.key_value() == other.key_value()),
    ;
}

/// The position of the first key that is the same as the one at `i`.
pub open spec fn first_same(keys: Seq<KeyValue>, i: int) -> int {
    first_index_of(keys, keys[i], 0, i)
}

/// The first position from `from` up to `to` that holds `key`; `to` where none before
/// it does.
pub open spec fn first_index_of(keys: Seq<KeyValue>, key: KeyValue, from: int, to: int) -> int
    decreases to - from,
{
    if from >= to || keys[from] == key {
        from
    } else {
        first_index_of(keys, key, from + 1, to)
    }
}

/// The first position is the least one.
pub proof fn lemma_first_index(keys: Seq<KeyValue>, key: KeyValue, from: int, to: int)
    requires
        0 <= from <= to,
    ensures
        from <= first_index_of(keys, key, from, to) <= to,
        first_index_of(keys, key, from, to) < to ==> keys[first_index_of(keys, key, from, to)]
            == key,
        forall|j: int| from <= j < first_index_of(keys, key, from, to) ==> keys[j] != key,
    decreases to - from,
{
    if from < to && keys[from] != key {
        lemma_first_index(keys, key, from + 1, to);
    }
}

/// Positions have the same first one exactly where their keys are the same.
pub proof fn lemma_first_same(keys: Seq<KeyValue>, i: int, j: int)
    requires
        0 <= i < keys.len(),
        0 <= j < keys.len(),
    ensures
        0 <= first_same(keys, i) <= i,
        keys[first_same(keys, i)] == keys[i],
        (first_same(keys, i) == first_same(keys, j)) == (keys[i] == keys[j]),
{
    lemma_first_index(keys, keys[i], 0, i);
    lemma_first_index(keys, keys[j], 0, j);
}

/// `classes` gives for each key the position of the first one that is the same.
pub open spec fn are_classes(classes: Seq<usize>, keys: Seq<KeyValue>) -> bool {
    &&& classes.len() == keys.len()
    &&& forall|i: int| 0 <= i < keys.len() ==> #[trigger] classes[i] == first_same(keys, i)
}

/// What each of the keys stands for.
pub open spec fn key_values<K: QueryKey>(keys: Seq<K>) -> Seq<KeyValue> {
    Seq::new(keys.len(), |i: int| keys[i].key_value())
}

/// Gives for each key the position of the first one that is the same.
pub fn classes_of<K: QueryKey>(keys: &Vec<K>) -> (r: Vec<usize>)
    ensures
        are_classes(r@, key_values(keys@)),
{
    let ghost all = key_values(keys@);
    let mut r: Vec<usize> = Vec::new();
    let mut i: usize = 0;
    while i < keys.len()
        invariant
            i <= keys@.len(),
            all == key_values(keys@),
            r@.len() == i,
            forall|k: int| 0 <= k < i ==> #[trigger] r@[k] == first_same(all, k),
        decreases keys@.len() - i,
    {
        let mut j: usize = 0;
        while j < i && !keys[j].same_key(&keys[i])
            invariant
                j <= i < keys@.len(),
                all == key_values(keys@),
                first_index_of(all, all[i as int], j as int, i as int) == first_same(
                    all,
                    i as int,
                ),
            decreases i - j,
        {
            assert(all[j as int] != all[i as int]);
            j += 1;
        }
        assert(j < i ==> all[j as int] == all[i as int]);
        r.push(j);
        i += 1;
    }
    r
}

impl QueryKey for i8 {
    open spec fn key_value(&self) -> KeyValue {
        KeyValue::Number(*self as int)
    }

    fn same_key(&self, other: &Self) -> (r: bool) {
        *self == *other
    }
}

impl QueryKey for i16 {
    open spec fn key_value(&self) -> KeyValue {
        KeyValue::Number(*self as int)
    }

    fn same_key(&self, other: &Self) -> (r: bool) {
        *self == *other
    }
}

impl QueryKey for i32 {
    open spec fn key_value(&self) -> KeyValue {
        KeyValue::Number(*self as int)
    }

    fn same_key(&self, other: &Self) -> (r: bool) {
        *self == *other
    }
}

impl QueryKey for i64 {
    open spec fn key_value(&self) -> KeyValue {
        KeyValue::Number(*self as int)
    }

    fn same_key(&self, other: &Self) -> (r: bool) {
        *self == *other
    }
}

impl QueryKey for i128 {
    open spec fn key_value(&self) -> KeyValue {
        KeyValue::Number(*self as int)
    }

    fn same_key(&self, other: &Self) -> (r: bool) {
        *self == *other
    }
}

impl QueryKey for isize {
    open spec fn key_value(&self) -> KeyValue {
        KeyValue::Number(*self as int)
    }

    fn same_key(&self, other: &Self) -> (r: bool) {
        *self == *other
    }
}

impl QueryKey for u8 {
    open spec fn key_value(&self) -> KeyValue {
        KeyValue::Number(*self as int)
    }

    fn same_key(&self, other: &Self) -> (r: bool) {
        *self == *other
    }
}

impl QueryKey for u16 {
    open spec fn key_value(&self) -> KeyValue {
        KeyValue::Number(*self as int)
    }

    fn same_key(&self, other: &Self) -> (r: bool) {
        *self == *other
    }
}

impl QueryKey for u32 {
    open spec fn key_value(&self) -> KeyValue {
        KeyValue::Number(*self as int)
    }

    fn same_key(&self, other: &Self) -> (r: bool) {
        *self == *other
    }
}

impl QueryKey for u64 {
    open spec fn key_value(&self) -> KeyValue {
        KeyValue::Number(*self as int)
    }

    fn same_key(&self, other: &Self) -> (r: bool) {
        *self == *other
    }
}

impl QueryKey for u128 {
    open spec fn key_value(&self) -> KeyValue {
        KeyValue::Number(*self as int)
    }

    fn same_key(&self, other: &Self) -> (r: bool) {
        *self == *other
    }
}

impl QueryKey for usize {
    open spec fn key_value(&self) -> KeyValue {
        KeyValue::Number(*self as int)
    }

    fn same_key(&self, other: &Self) -> (r: bool) {
        *self == *other
    }
}

impl QueryKey for bool {
    open spec fn key_value(&self) -> KeyValue {
        KeyValue::Flag(*self)
    }

    fn same_key(&self, other: &Self) -> (r: bool) {
        *self == *other
    }
}

impl QueryKey for char {
    open spec fn key_value(&self) -> KeyValue {
        KeyValue::Character(*self)
    }

    fn same_key(&self, other: &Self) -> (r: bool) {
        *self == *other
    }
}

impl QueryKey for String {
    open spec fn key_value(&self) -> KeyValue {
        KeyValue::Text(self@)
    }

    fn same_key(&self, other: &Self) -> (r: bool) {
        same_text(self.as_str(), other.as_str())
    }
}

impl<K: QueryKey> QueryKey for Option<K> {
    open spec fn key_value(&self) -> KeyValue {
        match self {
            None => KeyValue::Absent,
            Some(key) => KeyValue::Present(Box::new(key.key_value())),
        }
    }

    fn same_key(&self, other: &Self) -> (r: bool) {
        match (self, other) {
            (None, None) => true,
            (Some(a), Some(b)) => a.same_key(b),
            _ => false,
        }
    }
}

impl<A: QueryKey, B: QueryKey> QueryKey for (A, B) {
    open spec fn key_value(&self) -> KeyValue {
        KeyValue::Pair(Box::new(self.0.key_value()), Box::new(self.1.key_value()))
    }

    fn same_key(&self, other: &Self) -> (r: bool) {
        self.0.same_key(&other.0) && self.1.same_key(&other.1)
    }
}

} // verus!
