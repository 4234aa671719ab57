//! Keys under which backends store values.

use vstd::prelude::*;
use vstd::string::*;
use crate::cacheable::Cacheable;
use crate::error::BackendError;
use crate::payload::WirePayload;

verus! {

/// Namespace and type of the values that a backend stores.
#[derive(Debug, Clone, PartialEq, Eq)]
pub struct BackendKeyspace {
    /// Namespace of the deployment or application.
    pub namespace: Option<String>,
    /// Name of the cached type.
    pub cached_type: String,
}

/// What a backend says about values that it no longer stands for.
#[derive(Debug, Clone, PartialEq, Eq)]
pub enum BackendInvalidation {
    /// One id.
    Id(i64),
    /// Every id of the keyspace.
    All,
}

impl BackendKeyspace {
    /// The keyspace of `T`.
    pub fn for_type<T: Cacheable>(namespace: Option<&str>) -> (r: Self)
        ensures
            r.cached_type@ == T::spec_type_label(),
            r.namespace is Some == namespace is Some,
            namespace matches Some(text) ==> r.namespace->Some_0@ == text@,
    {
        let cached_type = T::cache_type_name().to_owned();
        let namespace = match namespace {
            Some(text) => Some(text.to_owned()),
            None => None,
        };
        BackendKeyspace { namespace, cached_type }
    }
}

/// A hexadecimal digit.
pub open spec fn hex_digit(n: int) -> char {
    if n == 0 {
        '0'
    } else if n == 1 {
        '1'
    } else if n == 2 {
        '2'
    } else if n == 3 {
        '3'
    } else if n == 4 {
        '4'
    } else if n == 5 {
        '5'
    } else if n == 6 {
        '6'
    } else if n == 7 {
        '7'
    } else if n == 8 {
        '8'
    } else if n == 9 {
        '9'
    } else if n == 10 {
        'a'
    } else if n == 11 {
        'b'
    } else if n == 12 {
        'c'
    } else if n == 13 {
        'd'
    } else if n == 14 {
        'e'
    } else {
        'f'
    }
}

/// Bytes as pairs of hexadecimal digits.
pub open spec fn hex(bytes: Seq<u8>) -> Seq<char>
    decreases bytes.len(),
{
    if bytes.len() == 0 {
        Seq::empty()
    } else {
        hex(bytes.drop_last()) + seq![
            hex_digit(bytes.last() as int / 16),
            hex_digit(bytes.last() as int % 16),
        ]
    }
}

/// A hexadecimal digit as text.
fn hex_text(n: u8) -> (r: &'static str)
    requires
        n < 16,
    ensures
        r@ == seq![hex_digit(n as int)],
{
    proof {
        reveal_strlit("0");
        reveal_strlit("1");
        reveal_strlit("2");
        reveal_strlit("3");
        reveal_strlit("4");
        reveal_strlit("5");
        reveal_strlit("6");
        reveal_strlit("7");
        reveal_strlit("8");
        reveal_strlit("9");
        reveal_strlit("a");
        reveal_strlit("b");
        reveal_strlit("c");
        reveal_strlit("d");
        reveal_strlit("e");
        reveal_strlit("f");
    }
    let r = match n {
        0 => "0",
        1 => "1",
        2 => "2",
        3 => "3",
        4 => "4",
        5 => "5",
        6 => "6",
        7 => "7",
        8 => "8",
        9 => "9",
        10 => "a",
        11 => "b",
        12 => "c",
        13 => "d",
        14 => "e",
        _ => "f",
    };
    assert(r@ =~= seq![hex_digit(n as int)]);
    r
}

/// Writes bytes as pairs of hexadecimal digits.
pub fn encode_hex(bytes: &[u8]) -> (r: String)
    ensures
        r@ == hex(bytes@),
{
    let mut r = String::new();
    let mut i: usize = 0;
    assert(r@ =~= Seq::<char>::empty());
    while i < bytes.len()
        invariant
            i <= bytes@.len(),
            r@ == hex(bytes@.take(i as int)),
        decreases bytes@.len() - i,
    {
        let byte = bytes[i];
        let ghost was = r@;
        r.append(hex_text(byte / 16));
        r.append(hex_text(byte % 16));
        assert(bytes@.take(i + 1).drop_last() =~= bytes@.take(i as int));
        assert(r@ =~= was + seq![hex_digit(byte as int / 16), hex_digit(byte as int % 16)]);
        i += 1;
    }
    assert(bytes@.take(i as int) =~= bytes@);
    r
}

/// The part of a key that stands for the namespace.
pub open spec fn namespace_part(namespace: Option<String>) -> Seq<char> {
    match namespace {
        Some(text) => "ns_"@ + hex(vstd::utf8::encode_utf8(text@)),
        None => "ns_none"@,
    }
}

/// The part of a key that stands for the type.
pub open spec fn type_part(label: Seq<char>) -> Seq<char> {
    "ty_"@ + hex(vstd::utf8::encode_utf8(label))
}

/// What every key of a keyspace starts with.
pub open spec fn key_prefix(keyspace: BackendKeyspace) -> Seq<char> {
    namespace_part(keyspace.namespace) + "/"@ + type_part(keyspace.cached_type@) + "/"@
}

/// The key of an id.
pub open spec fn storage_key(keyspace: BackendKeyspace, id: i64) -> Seq<char> {
    key_prefix(keyspace) + ("id_"@ + hex(crate::payload::id_code(id)))
}

/// Returns what every key of a keyspace starts with.
pub fn keyspace_storage_key_prefix(keyspace: &BackendKeyspace) -> (r: String)
    ensures
        r@ == key_prefix(*keyspace),
{
    let mut r = match &keyspace.namespace {
        Some(text) => {
            let mut part = "ns_".to_owned();
            part.append(encode_hex(text.as_str().as_bytes()).as_str());
            part
        },
        None => "ns_none".to_owned(),
    };
    assert(r@ =~= namespace_part(keyspace.namespace));
    r.append("/");
    r.append("ty_");
    r.append(encode_hex(keyspace.cached_type.as_str().as_bytes()).as_str());
    r.append("/");
    assert(r@ =~= key_prefix(*keyspace));
    r
}

/// Returns the key of an id.
pub fn keyspace_storage_key(keyspace: &BackendKeyspace, id: &i64) -> (r: Result<
    String,
    BackendError,
>)
    ensures
        r matches Ok(key) && key@ == storage_key(*keyspace, *id),
{
    match id.encode() {
        Ok(bytes) => {
            let mut r = keyspace_storage_key_prefix(keyspace);
            r.append("id_");
            r.append(encode_hex(bytes.as_slice()).as_str());
            assert(r@ =~= storage_key(*keyspace, *id));
            Ok(r)
        },
        Err(said) => Err(BackendError::Serialization(said)),
    }
}

/// Whether reading a stored container may give this.
pub open spec fn may_find<T: Cacheable + WirePayload>(
    bytes: Seq<u8>,
    r: Result<Option<T>, BackendError>,
) -> bool {
    match r {
        Ok(Some(value)) => crate::wire::may_read::<T>(bytes, crate::wire::KIND_VALUE, Ok(value)),
        Err(BackendError::WireFormat(err)) => crate::wire::may_read::<T>(
            bytes,
            crate::wire::KIND_VALUE,
            Err(err),
        ),
        _ => false,
    }
}

} // verus!
