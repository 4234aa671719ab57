//! Which types are admitted in portable containers.

use vstd::prelude::*;
use crate::cacheable::Cacheable;
use crate::error::WireFormatError;
use crate::jsahibon::{JFiniteF64, JObject, JSahibON};
use crate::payload::WirePayload;
use crate::wire::{from_slice, to_vec, KIND_VALUE};
use std::collections::{BTreeMap, BTreeSet};

verus! {

/// A type that is admitted as a part of portable values.
pub trait SassiWire: Send + Sync + 'static {

}

/// A cached type that is portable: so are its parts.
pub trait WirePortable: Cacheable + WirePayload + Send + Sync + 'static {

}

/// Puts a portable value into a container.
pub fn to_vec_portable<T: WirePortable>(payload: &T) -> (r: Result<Vec<u8>, WireFormatError>)
    ensures
        crate::wire::may_write(*payload, KIND_VALUE, r),
{
    to_vec(payload)
}

/// Reads a portable value out of a container.
pub fn from_slice_portable<T: WirePortable>(bytes: &[u8]) -> (r: Result<T, WireFormatError>)
    ensures
        crate::wire::may_read(bytes@, KIND_VALUE, r),
{
    from_slice(bytes)
}

impl SassiWire for () {

}

impl SassiWire for bool {

}

impl SassiWire for char {

}

impl SassiWire for i8 {

}

impl SassiWire for i16 {

}

impl SassiWire for i32 {

}

impl SassiWire for i64 {

}

impl SassiWire for i128 {

}

impl SassiWire for u8 {

}

impl SassiWire for u16 {

}

impl SassiWire for u32 {

}

impl SassiWire for u64 {

}

impl SassiWire for u128 {

}

impl SassiWire for String {

}

impl SassiWire for JFiniteF64 {

}

impl SassiWire for JObject {

}

impl SassiWire for JSahibON {

}

impl<T: SassiWire> SassiWire for Option<T> {

}

impl<T: SassiWire, E: SassiWire> SassiWire for Result<T, E> {

}

impl<T: SassiWire> SassiWire for Vec<T> {

}

impl<T: SassiWire> SassiWire for Box<T> {

}

impl<T: SassiWire> SassiWire for [T; 0] {

}

impl<T: SassiWire> SassiWire for [T; 1] {

}

impl<T: SassiWire> SassiWire for [T; 2] {

}

impl<T: SassiWire> SassiWire for [T; 3] {

}

impl<T: SassiWire> SassiWire for [T; 4] {

}

impl<T: SassiWire> SassiWire for [T; 5] {

}

impl<T: SassiWire> SassiWire for [T; 6] {

}

impl<T: SassiWire> SassiWire for [T; 7] {

}

impl<T: SassiWire> SassiWire for [T; 8] {

}

impl<T: SassiWire> SassiWire for [T; 9] {

}

impl<T: SassiWire> SassiWire for [T; 10] {

}

impl<T: SassiWire> SassiWire for [T; 11] {

}

impl<T: SassiWire> SassiWire for [T; 12] {

}

impl<T: SassiWire> SassiWire for [T; 13] {

}

impl<T: SassiWire> SassiWire for [T; 14] {

}

impl<T: SassiWire> SassiWire for [T; 15] {

}

impl<T: SassiWire> SassiWire for [T; 16] {

}

impl<T: SassiWire> SassiWire for [T; 17] {

}

impl<T: SassiWire> SassiWire for [T; 18] {

}

impl<T: SassiWire> SassiWire for [T; 19] {

}

impl<T: SassiWire> SassiWire for [T; 20] {

}

impl<T: SassiWire> SassiWire for [T; 21] {

}

impl<T: SassiWire> SassiWire for [T; 22] {

}

impl<T: SassiWire> SassiWire for [T; 23] {

}

impl<T: SassiWire> SassiWire for [T; 24] {

}

impl<T: SassiWire> SassiWire for [T; 25] {

}

impl<T: SassiWire> SassiWire for [T; 26] {

}

impl<T: SassiWire> SassiWire for [T; 27] {

}

impl<T: SassiWire> SassiWire for [T; 28] {

}

impl<T: SassiWire> SassiWire for [T; 29] {

}

impl<T: SassiWire> SassiWire for [T; 30] {

}

impl<T: SassiWire> SassiWire for [T; 31] {

}

impl<T: SassiWire> SassiWire for [T; 32] {

}

impl<K: SassiWire + Ord, V: SassiWire> SassiWire for BTreeMap<K, V> {

}

impl<T: SassiWire + Ord> SassiWire for BTreeSet<T> {

}

impl<A: SassiWire> SassiWire for (A,) {

}

impl<A: SassiWire, B: SassiWire> SassiWire for (A, B) {

}

impl<A: SassiWire, B: SassiWire, C: SassiWire> SassiWire for (A, B, C) {

}

impl<A: SassiWire, B: SassiWire, C: SassiWire, D: SassiWire> SassiWire for (A, B, C, D) {

}

impl<A: SassiWire, B: SassiWire, C: SassiWire, D: SassiWire, E: SassiWire> SassiWire for (A, B, C, D, E) {

}

impl<A: SassiWire, B: SassiWire, C: SassiWire, D: SassiWire, E: SassiWire, F: SassiWire> SassiWire for (A, B, C, D, E, F) {

}

impl<A: SassiWire, B: SassiWire, C: SassiWire, D: SassiWire, E: SassiWire, F: SassiWire, G: SassiWire> SassiWire for (A, B, C, D, E, F, G) {

}

impl<A: SassiWire, B: SassiWire, C: SassiWire, D: SassiWire, E: SassiWire, F: SassiWire, G: SassiWire, H: SassiWire> SassiWire for (A, B, C, D, E, F, G, H) {

}

impl<A: SassiWire, B: SassiWire, C: SassiWire, D: SassiWire, E: SassiWire, F: SassiWire, G: SassiWire, H: SassiWire, I: SassiWire> SassiWire for (A, B, C, D, E, F, G, H, I) {

}

impl<A: SassiWire, B: SassiWire, C: SassiWire, D: SassiWire, E: SassiWire, F: SassiWire, G: SassiWire, H: SassiWire, I: SassiWire, J: SassiWire> SassiWire for (A, B, C, D, E, F, G, H, I, J) {

}

impl<A: SassiWire, B: SassiWire, C: SassiWire, D: SassiWire, E: SassiWire, F: SassiWire, G: SassiWire, H: SassiWire, I: SassiWire, J: SassiWire, K: SassiWire> SassiWire for (A, B, C, D, E, F, G, H, I, J, K) {

}

impl<A: SassiWire, B: SassiWire, C: SassiWire, D: SassiWire, E: SassiWire, F: SassiWire, G: SassiWire, H: SassiWire, I: SassiWire, J: SassiWire, K: SassiWire, L: SassiWire> SassiWire for (A, B, C, D, E, F, G, H, I, J, K, L) {

}

} // verus!
