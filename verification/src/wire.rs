//! The binary container in which values cross process and storage boundaries.
//!
//! A container is a header and a body. The header holds a magic prefix, the wire major,
//! a kind byte, a flags byte and the name of the cached type; readers check all of it
//! before they look at the body.

use vstd::prelude::*;
use vstd::slice::*;
use vstd::string::*;
use crate::cacheable::Cacheable;
use crate::error::WireFormatError;
use crate::payload::WirePayload;
use crate::text::{push_decimal, same_bytes, text_of_bytes};
use std::sync::Arc;

verus! {

/// The wire major that is written and read.
pub const WIRE_FORMAT_MAJOR: u16 = 1;

/// The kind byte of a single value.
pub const KIND_VALUE: u8 = 0x01;

/// The kind byte of a file entry.
pub const KIND_FILE_ENTRY: u8 = 0x02;

/// The kind byte of a snapshot of entries.
pub const KIND_PUNNU_ENTRIES: u8 = 0x03;

/// The kind byte of a snapshot of entries with internal state.
pub const KIND_PUNNU_ENTRIES_WITH_HINTS: u8 = 0x04;

/// The first kind byte that is not understood.
pub const FIRST_RESERVED_KIND: u8 = 0x05;

/// The length of the header before the name.
pub const HEADER_FIXED_LEN: usize = 14;

/// What a container holds.
#[derive(Debug, Clone, Copy, PartialEq, Eq, Structural)]
pub enum WireKind {
    /// A single value.
    Value,
    /// A value and its expiry.
    FileEntry,
    /// A snapshot of entries.
    PunnuEntries,
    /// A snapshot of entries with internal state.
    PunnuEntriesWithHints,
}

impl WireKind {
    /// The kind byte.
    pub open spec fn byte(self) -> u8 {
        match self {
            WireKind::Value => KIND_VALUE,
            WireKind::FileEntry => KIND_FILE_ENTRY,
            WireKind::PunnuEntries => KIND_PUNNU_ENTRIES,
            WireKind::PunnuEntriesWithHints => KIND_PUNNU_ENTRIES_WITH_HINTS,
        }
    }

    /// Returns the kind byte.
    pub fn as_u8(self) -> (r: u8)
        ensures
            r == self.byte(),
    {
        match self {
            WireKind::Value => KIND_VALUE,
            WireKind::FileEntry => KIND_FILE_ENTRY,
            WireKind::PunnuEntries => KIND_PUNNU_ENTRIES,
            WireKind::PunnuEntriesWithHints => KIND_PUNNU_ENTRIES_WITH_HINTS,
        }
    }
}

/// The bytes that every container starts with.
pub open spec fn magic() -> Seq<u8> {
    seq![0x53u8, 0x41u8, 0x53u8, 0x53u8, 0x49u8, 0u8, 0x57u8, 0u8]
}

/// The number of which these are the bytes, least significant first.
pub open spec fn little_endian(bytes: Seq<u8>) -> int
    decreases bytes.len(),
{
    if bytes.len() == 0 {
        0
    } else {
        bytes[0] + 256 * little_endian(bytes.drop_first())
    }
}

/// `bytes` are the `width` bytes of `n`, least significant first.
pub open spec fn is_little_endian(bytes: Seq<u8>, n: int, width: nat) -> bool {
    bytes.len() == width && little_endian(bytes) == n
}

/// Appends the `width` bytes of `n`, least significant first.
pub fn push_little_endian(out: &mut Vec<u8>, n: u64, width: usize)
    requires
        width <= 8,
        width == 8 || n < vstd::arithmetic::power::pow(256, width as nat),
    ensures
        final(out)@.len() == old(out)@.len() + width,
        final(out)@.take(old(out)@.len() as int) == old(out)@,
        is_little_endian(final(out)@.skip(old(out)@.len() as int), n as int, width as nat),
    decreases width,
{
    broadcast use vstd::arithmetic::power::lemma_pow1;

    let ghost before = out@;
    if width == 0 {
        proof {
            vstd::arithmetic::power::lemma_pow0(256);
        }
        assert(out@.skip(before.len() as int) =~= Seq::<u8>::empty());
        assert(out@.take(before.len() as int) =~= before);
    } else {
        proof {
            vstd::arithmetic::power::lemma_pow_adds(256, 1, (width - 1) as nat);
            if width == 8 {
                vstd::arithmetic::power2::lemma2_to64();
                assert(vstd::arithmetic::power::pow(256, 7) == 0x1_00_0000_0000_0000) by {
                    reveal(vstd::arithmetic::power::pow);
                    reveal_with_fuel(vstd::arithmetic::power::pow, 8);
                }
            }
            assert(n / 256 < vstd::arithmetic::power::pow(256, (width - 1) as nat)) by {
                let rest = vstd::arithmetic::power::pow(256, (width - 1) as nat);
                assert(n < 256 * rest);
            }
        }
        let low = (n % 256) as u8;
        out.push(low);
        let ghost middle = out@;
        push_little_endian(out, n / 256, width - 1);
        let ghost tail = out@.skip(middle.len() as int);
        assert(out@.take(before.len() as int) =~= before) by {
            assert(out@.take(middle.len() as int) == middle);
            assert forall|i: int| 0 <= i < before.len() implies out@[i] == before[i] by {
                assert(out@.take(middle.len() as int)[i] == middle[i]);
            }
        }
        assert(out@[before.len() as int] == low) by {
            assert(out@.take(middle.len() as int)[before.len() as int] == low);
        }
        assert(out@.skip(before.len() as int).drop_first() =~= tail);
        assert(out@.skip(before.len() as int)[0] == low);
    }
}

/// The bytes of a number are below the power of their width.
proof fn lemma_little_endian_bound(bytes: Seq<u8>)
    ensures
        0 <= little_endian(bytes) < vstd::arithmetic::power::pow(256, bytes.len()),
    decreases bytes.len(),
{
    if bytes.len() == 0 {
        vstd::arithmetic::power::lemma_pow0(256);
    } else {
        lemma_little_endian_bound(bytes.drop_first());
        let rest = vstd::arithmetic::power::pow(256, (bytes.len() - 1) as nat);
        vstd::arithmetic::power::lemma_pow1(256);
        vstd::arithmetic::power::lemma_pow_adds(256, 1, (bytes.len() - 1) as nat);
        assert(vstd::arithmetic::power::pow(256, bytes.len()) == 256 * rest);
    }
}

/// The number of which the `width` bytes from `from` on are the bytes, least significant
/// first.
pub fn read_little_endian(bytes: &[u8], from: usize, width: usize) -> (r: u64)
    requires
        from + width <= bytes@.len(),
        width <= 8,
    ensures
        r == little_endian(bytes@.subrange(from as int, from + width)),
    decreases width,
{
    let ghost part = bytes@.subrange(from as int, from + width);
    assert(bytes@.len() == bytes.len());
    if width == 0 {
        0
    } else {
        assert(part.drop_first() =~= bytes@.subrange(from + 1, from + width));
        let rest = read_little_endian(bytes, from + 1, width - 1);
        proof {
            lemma_little_endian_bound(part.drop_first());
            assert(vstd::arithmetic::power::pow(256, 7) == 0x1_00_0000_0000_0000) by {
                reveal(vstd::arithmetic::power::pow);
                reveal_with_fuel(vstd::arithmetic::power::pow, 8);
            }
            if width - 1 < 7 {
                vstd::arithmetic::power::lemma_pow_strictly_increases(256, (width - 1) as nat, 7);
            }
        }
        bytes[from] as u64 + 256 * rest
    }
}

/// The header of a container of kind `kind` for the type named `label`.
pub open spec fn header(kind: u8, label: Seq<char>) -> Seq<u8> {
    let name = vstd::utf8::encode_utf8(label);
    magic() + seq![1u8, 0u8, kind, 0u8] + seq![
        (name.len() % 256) as u8,
        (name.len() / 256) as u8,
    ] + name
}

/// What is made of an encoded body: the container, or the error.
pub open spec fn framed(
    kind: u8,
    label: Seq<char>,
    encoded: Result<Seq<u8>, Seq<char>>,
    r: Result<Vec<u8>, WireFormatError>,
) -> bool {
    if vstd::utf8::encode_utf8(label).len() > u16::MAX {
        r matches Err(WireFormatError::MalformedHeader(text)) && text@
            == "cache type name exceeds u16 length"@
    } else {
        match encoded {
            Ok(body) => r matches Ok(bytes) && bytes@ == header(kind, label) + body,
            Err(said) => r matches Err(WireFormatError::Codec(text)) && text@ == said,
        }
    }
}

/// Appends the header of a container for `T`.
pub fn encode_header<T: Cacheable>(kind: WireKind, out: &mut Vec<u8>) -> (r: Result<
    (),
    WireFormatError,
>)
    ensures
        ({
            let name = vstd::utf8::encode_utf8(T::spec_type_label());
            if name.len() > u16::MAX {
                &&& r matches Err(WireFormatError::MalformedHeader(text)) && text@
                    == "cache type name exceeds u16 length"@
                &&& final(out)@ == old(out)@
            } else {
                &&& r is Ok
                &&& final(out)@ == old(out)@ + header(kind.byte(), T::spec_type_label())
            }
        }),
{
    let ghost before = out@;
    let name = T::cache_type_name().as_bytes();
    if name.len() > 65535 {
        return Err(
            WireFormatError::MalformedHeader("cache type name exceeds u16 length".to_owned()),
        );
    }
    out.push(0x53);
    out.push(0x41);
    out.push(0x53);
    out.push(0x53);
    out.push(0x49);
    out.push(0);
    out.push(0x57);
    out.push(0);
    out.push(1);
    out.push(0);
    out.push(kind.as_u8());
    out.push(0);
    out.push((name.len() % 256) as u8);
    out.push((name.len() / 256) as u8);
    out.extend_from_slice(name);
    assert(out@ =~= before + header(kind.byte(), T::spec_type_label()));
    Ok(())
}

/// Makes a container of an encoded body.
pub fn frame<T: Cacheable>(kind: WireKind, encoded: Result<Vec<u8>, String>) -> (r: Result<
    Vec<u8>,
    WireFormatError,
>)
    ensures
        framed(kind.byte(), T::spec_type_label(), seen_bytes(encoded), r),
{
    let mut out: Vec<u8> = Vec::new();
    match encode_header::<T>(kind, &mut out) {
        Err(err) => Err(err),
        Ok(()) => match encoded {
            Ok(body) => {
                out.extend_from_slice(body.as_slice());
                assert(out@ =~= header(kind.byte(), T::spec_type_label()) + body@);
                Ok(out)
            },
            Err(said) => Err(WireFormatError::Codec(said)),
        },
    }
}

/// An encoded body, or what the encoder said.
pub open spec fn seen_bytes(r: Result<Vec<u8>, String>) -> Result<Seq<u8>, Seq<char>> {
    match r {
        Ok(bytes) => Ok(bytes@),
        Err(text) => Err(text@),
    }
}

/// What the start of a container says: its kind byte, or the error.
pub open spec fn kind_of(bytes: Seq<u8>, r: Result<u8, WireFormatError>) -> bool {
    if bytes.len() > 0 && bytes[0] == 0x7b {
        r == Err::<u8, WireFormatError>(
            WireFormatError::VersionMismatch { got: 0, expected: WIRE_FORMAT_MAJOR },
        )
    } else if bytes.len() < HEADER_FIXED_LEN {
        r matches Err(WireFormatError::MalformedHeader(text)) && text@ == "header too short"@
    } else if bytes.take(8) != magic() {
        r matches Err(WireFormatError::InvalidMagic)
    } else if little_endian(bytes.subrange(8, 10)) != WIRE_FORMAT_MAJOR {
        r == Err::<u8, WireFormatError>(
            WireFormatError::VersionMismatch {
                got: little_endian(bytes.subrange(8, 10)) as u16,
                expected: WIRE_FORMAT_MAJOR,
            },
        )
    } else if bytes[10] >= FIRST_RESERVED_KIND {
        r == Err::<u8, WireFormatError>(WireFormatError::UnsupportedKind { kind: bytes[10] })
    } else {
        r == Ok::<u8, WireFormatError>(bytes[10])
    }
}

/// Reads the kind byte of a container. The magic prefix and the wire major are checked,
/// the name and the body are not looked at.
pub fn peek_kind(bytes: &[u8]) -> (r: Result<u8, WireFormatError>)
    ensures
        kind_of(bytes@, r),
{
    if bytes.len() > 0 && bytes[0] == 0x7b {
        return Err(WireFormatError::VersionMismatch { got: 0, expected: WIRE_FORMAT_MAJOR });
    }
    if bytes.len() < HEADER_FIXED_LEN {
        return Err(WireFormatError::MalformedHeader("header too short".to_owned()));
    }
    let has_magic = bytes[0] == 0x53 && bytes[1] == 0x41 && bytes[2] == 0x53 && bytes[3] == 0x53
        && bytes[4] == 0x49 && bytes[5] == 0 && bytes[6] == 0x57 && bytes[7] == 0;
    assert(has_magic == (bytes@.take(8) == magic())) by {
        if has_magic {
            assert(bytes@.take(8) =~= magic());
        } else {
            let t = bytes@.take(8);
            assert(t[0] == bytes@[0] && t[1] == bytes@[1] && t[2] == bytes@[2] && t[3] == bytes@[3]
                && t[4] == bytes@[4] && t[5] == bytes@[5] && t[6] == bytes@[6] && t[7]
                == bytes@[7]);
            let m = magic();
            assert(m[0] == 0x53 && m[1] == 0x41 && m[2] == 0x53 && m[3] == 0x53 && m[4] == 0x49
                && m[5] == 0 && m[6] == 0x57 && m[7] == 0);
        }
    }
    if !has_magic {
        return Err(WireFormatError::InvalidMagic);
    }
    let major = read_little_endian(bytes, 8, 2);
    proof {
        lemma_two_bytes(bytes@.subrange(8, 10));
    }
    if major != WIRE_FORMAT_MAJOR as u64 {
        return Err(
            WireFormatError::VersionMismatch { got: major as u16, expected: WIRE_FORMAT_MAJOR },
        );
    }
    let kind = bytes[10];
    if kind >= FIRST_RESERVED_KIND {
        return Err(WireFormatError::UnsupportedKind { kind });
    }
    Ok(kind)
}

/// Two bytes, least significant first.
pub proof fn lemma_two_bytes(bytes: Seq<u8>)
    requires
        bytes.len() == 2,
    ensures
        little_endian(bytes) == bytes[0] + 256 * bytes[1],
        0 <= little_endian(bytes) <= u16::MAX,
{
    assert(bytes.drop_first()[0] == bytes[1]);
    reveal_with_fuel(little_endian, 3);
}

/// What the header of a container says to a reader of kind `kind` for the type named
/// `label`: the body, or the error.
pub open spec fn body_of(
    bytes: Seq<u8>,
    kind: u8,
    label: Seq<char>,
    r: Result<&[u8], WireFormatError>,
) -> bool {
    if kind_of(bytes, Ok(bytes[10])) {
        let name_end = HEADER_FIXED_LEN + little_endian(bytes.subrange(12, 14));
        let name = bytes.subrange(HEADER_FIXED_LEN as int, name_end);
        if bytes[10] != kind {
            r matches Err(WireFormatError::KindMismatch { got, expected }) && got == bytes[10]
                && expected == kind
        } else if bytes[11] != 0 {
            r matches Err(WireFormatError::UnsupportedFlags { flags }) && flags == bytes[11]
        } else if bytes.len() < name_end {
            r matches Err(WireFormatError::MalformedHeader(text)) && text@
                == "type name extends past input"@
        } else if !vstd::utf8::valid_utf8(name) {
            r matches Err(WireFormatError::MalformedHeader(text)) && text@
                == crate::text::utf8_error_text(name)
        } else if vstd::utf8::decode_utf8(name) != label {
            r matches Err(WireFormatError::TypeNameMismatch { got, expected }) && got@
                == vstd::utf8::decode_utf8(name) && expected@ == label
        } else {
            r matches Ok(body) && body@ == bytes.skip(name_end)
        }
    } else {
        r matches Err(err) && kind_of(bytes, Err(err))
    }
}

/// Checks the header of a container for `T` and finds its body.
pub fn decode_header<'a, T: Cacheable>(bytes: &'a [u8], expected: WireKind) -> (r: Result<
    &'a [u8],
    WireFormatError,
>)
    ensures
        body_of(bytes@, expected.byte(), T::spec_type_label(), r),
{
    let kind = match peek_kind(bytes) {
        Ok(kind) => kind,
        Err(err) => {
            return Err(err);
        },
    };
    if kind != expected.as_u8() {
        return Err(WireFormatError::KindMismatch { got: kind, expected: expected.as_u8() });
    }
    let flags = bytes[11];
    if flags != 0 {
        return Err(WireFormatError::UnsupportedFlags { flags });
    }
    proof {
        lemma_two_bytes(bytes@.subrange(12, 14));
    }
    let name_len = read_little_endian(bytes, 12, 2) as usize;
    let name_end = HEADER_FIXED_LEN + name_len;
    if bytes.len() < name_end {
        return Err(WireFormatError::MalformedHeader("type name extends past input".to_owned()));
    }
    let name = slice_subrange(bytes, HEADER_FIXED_LEN, name_end);
    let got = match text_of_bytes(name) {
        Ok(got) => got,
        Err(said) => {
            return Err(WireFormatError::MalformedHeader(said));
        },
    };
    let label = T::cache_type_name();
    proof {
        vstd::utf8::decode_utf8_encode_utf8(name@);
        vstd::utf8::encode_utf8_decode_utf8(label@);
    }
    if !same_bytes(name, label.as_bytes()) {
        return Err(WireFormatError::TypeNameMismatch { got, expected: label.to_owned() });
    }
    let body = slice_subrange(bytes, name_end, bytes.len());
    assert(body@ =~= bytes@.skip(name_end as int));
    Ok(body)
}

/// What a decoded body comes to: the value, or the error.
pub open spec fn read_exactly<V>(
    decoded: Result<(V, nat), Seq<char>>,
    len: nat,
    r: Result<V, WireFormatError>,
) -> bool {
    match decoded {
        Err(said) => r matches Err(WireFormatError::Codec(text)) && text@ == said,
        Ok((value, taken)) => if taken == len {
            r == Ok::<V, WireFormatError>(value)
        } else {
            r matches Err(WireFormatError::Codec(text)) && text@
                == "trailing bytes after postcard body"@
        },
    }
}

/// Takes a decoded body of `len` bytes only where nothing is left of it.
pub fn accept_exact<V>(decoded: Result<(V, usize), String>, len: usize) -> (r: Result<
    V,
    WireFormatError,
>)
    ensures
        read_exactly(crate::payload::seen_decoded(decoded), len as nat, r),
{
    match decoded {
        Err(said) => Err(WireFormatError::Codec(said)),
        Ok((value, taken)) => if taken == len {
            Ok(value)
        } else {
            Err(WireFormatError::Codec("trailing bytes after postcard body".to_owned()))
        },
    }
}

/// Whether `r` may come of reading all of `body`.
pub open spec fn may_read_exactly<V: WirePayload>(
    body: Seq<u8>,
    r: Result<V, WireFormatError>,
) -> bool {
    exists|decoded: Result<(V, nat), Seq<char>>| #[trigger]
        V::may_decode(body, decoded) && read_exactly(decoded, body.len(), r)
}

/// Decodes a value from all of `body`.
pub fn decode_postcard_exact<V: WirePayload>(body: &[u8]) -> (r: Result<V, WireFormatError>)
    ensures
        may_read_exactly(body@, r),
{
    let decoded = V::decode(body);
    assert(V::may_decode(body@, crate::payload::seen_decoded(decoded)));
    accept_exact(decoded, body.len())
}

/// Whether `r` may come of putting `payload` into a container.
pub open spec fn may_write<T: Cacheable + WirePayload>(
    payload: T,
    kind: u8,
    r: Result<Vec<u8>, WireFormatError>,
) -> bool {
    exists|encoded: Result<Seq<u8>, Seq<char>>| #[trigger]
        payload.may_encode(encoded) && framed(kind, T::spec_type_label(), encoded, r)
}

/// Whether `r` may come of reading a value out of a container.
pub open spec fn may_read<T: Cacheable + WirePayload>(
    bytes: Seq<u8>,
    kind: u8,
    r: Result<T, WireFormatError>,
) -> bool {
    ||| exists|body: &[u8]| #[trigger]
        body_of(bytes, kind, T::spec_type_label(), Ok(body)) && may_read_exactly(body@, r)
    ||| r matches Err(err) && body_of(bytes, kind, T::spec_type_label(), Err(err))
}

/// Puts a value into a container.
pub fn to_vec<T: Cacheable + WirePayload>(payload: &T) -> (r: Result<Vec<u8>, WireFormatError>)
    ensures
        may_write(*payload, KIND_VALUE, r),
{
    let encoded = payload.encode();
    assert(payload.may_encode(seen_bytes(encoded)));
    frame::<T>(WireKind::Value, encoded)
}

/// Reads a value out of a container.
pub fn from_slice<T: Cacheable + WirePayload>(bytes: &[u8]) -> (r: Result<T, WireFormatError>)
    ensures
        may_read(bytes@, KIND_VALUE, r),
{
    let ghost label = T::spec_type_label();
    match decode_header::<T>(bytes, WireKind::Value) {
        Err(err) => {
            let ghost said = err;
            let r: Result<T, WireFormatError> = Err(err);
            assert(body_of(bytes@, KIND_VALUE, label, Err(said)));
            r
        },
        Ok(body) => {
            assert(body_of(bytes@, KIND_VALUE, label, Ok(body)));
            decode_postcard_exact(body)
        },
    }
}

/// Whether encoding the entries one after the other may give this.
pub open spec fn may_encode_all<T: WirePayload>(
    entries: Seq<Arc<T>>,
    r: Result<Seq<u8>, Seq<char>>,
) -> bool
    decreases entries.len(),
{
    if entries.len() == 0 {
        r == Ok::<Seq<u8>, Seq<char>>(Seq::empty())
    } else {
        exists|before: Result<Seq<u8>, Seq<char>>, last: Result<Seq<u8>, Seq<char>>|
            #![trigger follow(before, last)]
            {
                &&& may_encode_all(entries.drop_last(), before)
                &&& before is Ok ==> entries.last().may_encode(last)
                &&& r == follow(before, last)
            }
    }
}

/// Encoded bytes and what follows; the first error where there is one.
pub open spec fn follow(
    before: Result<Seq<u8>, Seq<char>>,
    last: Result<Seq<u8>, Seq<char>>,
) -> Result<Seq<u8>, Seq<char>> {
    match before {
        Err(said) => Err(said),
        Ok(bytes) => match last {
            Err(said) => Err(said),
            Ok(more) => Ok(bytes + more),
        },
    }
}

/// What encoded entries come to: the container, or the error.
pub open spec fn framed_entries(
    label: Seq<char>,
    count: nat,
    encoded: Result<Seq<u8>, Seq<char>>,
    r: Result<Vec<u8>, WireFormatError>,
) -> bool {
    if vstd::utf8::encode_utf8(label).len() > u16::MAX {
        r matches Err(WireFormatError::MalformedHeader(text)) && text@
            == "cache type name exceeds u16 length"@
    } else if count > u32::MAX {
        r matches Err(WireFormatError::Codec(text)) && text@ == "too many punnu entries"@
    } else {
        match encoded {
            Ok(body) => r matches Ok(bytes) && exists|counted: Seq<u8>| #[trigger]
                is_little_endian(counted, count as int, 4) && bytes@ == header(
                    KIND_PUNNU_ENTRIES,
                    label,
                ) + counted + body,
            Err(said) => r matches Err(WireFormatError::Codec(text)) && text@ == said,
        }
    }
}

/// Encodes entries one after the other.
pub fn encode_all<T: WirePayload>(entries: &Vec<Arc<T>>) -> (r: Result<Vec<u8>, String>)
    ensures
        may_encode_all(entries@, seen_bytes(r)),
{
    let mut out: Vec<u8> = Vec::new();
    let mut i: usize = 0;
    while i < entries.len()
        invariant
            i <= entries@.len(),
            may_encode_all(entries@.take(i as int), Ok(out@)),
        decreases entries@.len() - i,
    {
        let encoded = entries[i].encode();
        let ghost before = Ok::<Seq<u8>, Seq<char>>(out@);
        let ghost last = seen_bytes(encoded);
        assert(entries@.take(i + 1).drop_last() =~= entries@.take(i as int));
        assert(entries@.take(i + 1).last().may_encode(last));
        assert(may_encode_all(entries@.take(i + 1), follow(before, last)));
        match encoded {
            Ok(bytes) => {
                let ghost was = out@;
                out.extend_from_slice(bytes.as_slice());
                assert(out@ =~= was + bytes@);
            },
            Err(said) => {
                proof {
                    lemma_error_stays(entries@, i + 1, said@);
                }
                return Err(said);
            },
        }
        i += 1;
    }
    assert(entries@.take(i as int) =~= entries@);
    Ok(out)
}

/// What went wrong on the first entries goes wrong on all of them.
proof fn lemma_error_stays<T: WirePayload>(entries: Seq<Arc<T>>, n: int, said: Seq<char>)
    requires
        0 <= n <= entries.len(),
        may_encode_all(entries.take(n), Err(said)),
    ensures
        may_encode_all(entries, Err(said)),
    decreases entries.len() - n,
{
    if n == entries.len() {
        assert(entries.take(n) =~= entries);
    } else {
        let before = Err::<Seq<u8>, Seq<char>>(said);
        assert(entries.take(n + 1).drop_last() =~= entries.take(n));
        assert(follow(before, before) == before);
        lemma_error_stays(entries, n + 1, said);
    }
}

/// Makes a container of encoded entries.
pub fn frame_entries<T: Cacheable>(count: usize, encoded: Result<Vec<u8>, String>) -> (r: Result<
    Vec<u8>,
    WireFormatError,
>)
    ensures
        framed_entries(T::spec_type_label(), count as nat, seen_bytes(encoded), r),
{
    let mut out: Vec<u8> = Vec::new();
    match encode_header::<T>(WireKind::PunnuEntries, &mut out) {
        Err(err) => {
            return Err(err);
        },
        Ok(()) => {},
    }
    let ghost head = out@;
    assert(head =~= header(KIND_PUNNU_ENTRIES, T::spec_type_label()));
    if count as u64 > u32::MAX as u64 {
        return Err(WireFormatError::Codec("too many punnu entries".to_owned()));
    }
    proof {
        assert(vstd::arithmetic::power::pow(256, 4) == 0x1_0000_0000) by {
            reveal(vstd::arithmetic::power::pow);
            reveal_with_fuel(vstd::arithmetic::power::pow, 5);
        }
    }
    push_little_endian(&mut out, count as u64, 4);
    let ghost counted = out@.skip(head.len() as int);
    assert(out@ =~= head + counted) by {
        assert(out@.take(head.len() as int) == head);
        assert(out@ =~= out@.take(head.len() as int) + out@.skip(head.len() as int));
    }
    match encoded {
        Ok(body) => {
            let ghost was = out@;
            out.extend_from_slice(body.as_slice());
            assert(out@ =~= head + counted + body@);
            assert(is_little_endian(counted, count as int, 4));
            Ok(out)
        },
        Err(said) => Err(WireFormatError::Codec(said)),
    }
}

/// Puts a snapshot of entries into a container.
pub fn encode_punnu_entries<T: Cacheable + WirePayload>(entries: &Vec<Arc<T>>) -> (r: Result<
    Vec<u8>,
    WireFormatError,
>)
    ensures
        exists|encoded: Result<Seq<u8>, Seq<char>>| #[trigger]
            may_encode_all(entries@, encoded) && framed_entries(
                T::spec_type_label(),
                entries@.len(),
                encoded,
                r,
            ),
{
    let encoded = encode_all(entries);
    assert(may_encode_all(entries@, seen_bytes(encoded)));
    frame_entries::<T>(entries.len(), encoded)
}

/// What a container of entries says: how many there are and their bytes, or the error.
pub open spec fn counted_body(
    bytes: Seq<u8>,
    label: Seq<char>,
    r: Result<(usize, &[u8]), WireFormatError>,
) -> bool {
    ||| exists|body: &[u8]| #[trigger]
        body_of(bytes, KIND_PUNNU_ENTRIES, label, Ok(body)) && if body@.len() < 4 {
            r matches Err(WireFormatError::MalformedHeader(text)) && text@
                == "punnu entries body missing count"@
        } else {
            r matches Ok((count, rest)) && count == little_endian(body@.take(4)) && rest@
                == body@.skip(4)
        }
    ||| r matches Err(err) && body_of(bytes, KIND_PUNNU_ENTRIES, label, Err(err))
}

/// Reads how many entries a container holds, and finds their bytes. The entries are not
/// looked at.
pub fn decode_punnu_entries_len<'a, T: Cacheable>(bytes: &'a [u8]) -> (r: Result<
    (usize, &'a [u8]),
    WireFormatError,
>)
    ensures
        counted_body(bytes@, T::spec_type_label(), r),
{
    let ghost label = T::spec_type_label();
    match decode_header::<T>(bytes, WireKind::PunnuEntries) {
        Err(err) => {
            let ghost said = err;
            let r: Result<(usize, &'a [u8]), WireFormatError> = Err(err);
            assert(body_of(bytes@, KIND_PUNNU_ENTRIES, label, Err(said)));
            r
        },
        Ok(body) => {
            assert(body_of(bytes@, KIND_PUNNU_ENTRIES, label, Ok(body)));
            if body.len() < 4 {
                return Err(
                    WireFormatError::MalformedHeader("punnu entries body missing count".to_owned()),
                );
            }
            let count = read_little_endian(body, 0, 4);
            proof {
                assert(body@.subrange(0, 4) =~= body@.take(4));
                lemma_little_endian_bound(body@.take(4));
                assert(vstd::arithmetic::power::pow(256, 4) == 0x1_0000_0000) by {
                    reveal(vstd::arithmetic::power::pow);
                    reveal_with_fuel(vstd::arithmetic::power::pow, 5);
                }
            }
            let rest = slice_subrange(body, 4, body.len());
            assert(rest@ =~= body@.skip(4));
            Ok((count as usize, rest))
        },
    }
}

/// Whether decoding `count` entries from the start of `body` may give this: the entries
/// and what is left, or what the decoder said.
pub open spec fn may_decode_all<T: WirePayload>(
    body: Seq<u8>,
    count: nat,
    r: Result<(Seq<T>, Seq<u8>), Seq<char>>,
) -> bool
    decreases count,
{
    if count == 0 {
        r == Ok::<(Seq<T>, Seq<u8>), Seq<char>>((Seq::empty(), body))
    } else {
        exists|before: Result<(Seq<T>, Seq<u8>), Seq<char>>, next: Result<(T, nat), Seq<char>>|
            #![trigger read_on(before, next)]
            {
                &&& may_decode_all(body, (count - 1) as nat, before)
                &&& before matches Ok((_, left)) ==> T::may_decode(left, next)
                &&& r == read_on(before, next)
            }
    }
}

/// Decoded entries and the next one; the first error where there is one.
pub open spec fn read_on<T>(
    before: Result<(Seq<T>, Seq<u8>), Seq<char>>,
    next: Result<(T, nat), Seq<char>>,
) -> Result<(Seq<T>, Seq<u8>), Seq<char>> {
    match before {
        Err(said) => Err(said),
        Ok((entries, left)) => match next {
            Err(said) => Err(said),
            Ok((entry, taken)) => Ok((entries.push(entry), left.skip(taken as int))),
        },
    }
}

/// What decoded entries come to: the entries, or the error.
pub open spec fn entries_read<T>(
    decoded: Result<(Seq<T>, Seq<u8>), Seq<char>>,
    r: Result<Vec<T>, WireFormatError>,
) -> bool {
    match decoded {
        Err(said) => r matches Err(WireFormatError::Codec(text)) && text@ == said,
        Ok((entries, left)) => if left.len() == 0 {
            r matches Ok(v) && v@ == entries
        } else {
            r matches Err(WireFormatError::Codec(text)) && text@
                == "trailing bytes after punnu entries body"@
        },
    }
}

/// What went wrong on the first entries goes wrong on all of them.
proof fn lemma_decode_error_stays<T: WirePayload>(
    body: Seq<u8>,
    n: nat,
    count: nat,
    said: Seq<char>,
)
    requires
        n <= count,
        may_decode_all::<T>(body, n, Err(said)),
    ensures
        may_decode_all::<T>(body, count, Err(said)),
    decreases count - n,
{
    if n < count {
        let before = Err::<(Seq<T>, Seq<u8>), Seq<char>>(said);
        let next = Err::<(T, nat), Seq<char>>(said);
        assert(read_on(before, next) == before);
        assert((n + 1 - 1) as nat == n);
        lemma_decode_error_stays::<T>(body, n + 1, count, said);
    }
}

/// Decodes `count` entries from all of `body`, into the room that was made for them.
pub fn decode_entries_into<T: WirePayload>(body: &[u8], count: usize, room: Vec<T>) -> (r: Result<
    Vec<T>,
    WireFormatError,
>)
    requires
        room@.len() == 0,
    ensures
        exists|decoded: Result<(Seq<T>, Seq<u8>), Seq<char>>|
            may_decode_all(body@, count as nat, decoded) && #[trigger] entries_read(decoded, r),
{
    let mut entries = room;
    let mut left = body;
    let mut i: usize = 0;
    assert(entries@ =~= Seq::<T>::empty());
    while i < count
        invariant
            i <= count,
            may_decode_all(body@, i as nat, Ok((entries@, left@))),
        decreases count - i,
    {
        let decoded = T::decode(left);
        let ghost before = Ok::<(Seq<T>, Seq<u8>), Seq<char>>((entries@, left@));
        let ghost next = crate::payload::seen_decoded(decoded);
        assert((i + 1 - 1) as nat == i as nat);
        assert(may_decode_all(body@, (i + 1) as nat, read_on(before, next)));
        match decoded {
            Ok((entry, taken)) => {
                let rest = slice_subrange(left, taken, left.len());
                assert(rest@ =~= left@.skip(taken as int));
                entries.push(entry);
                left = rest;
            },
            Err(said) => {
                proof {
                    lemma_decode_error_stays::<T>(body@, (i + 1) as nat, count as nat, said@);
                }
                let ghost failed = Err::<(Seq<T>, Seq<u8>), Seq<char>>(said@);
                let r: Result<Vec<T>, WireFormatError> = Err(WireFormatError::Codec(said));
                assert(entries_read(failed, r));
                return r;
            },
        }
        i += 1;
    }
    let ghost decoded = Ok::<(Seq<T>, Seq<u8>), Seq<char>>((entries@, left@));
    if left.len() > 0 {
        let r: Result<Vec<T>, WireFormatError> = Err(
            WireFormatError::Codec("trailing bytes after punnu entries body".to_owned()),
        );
        assert(entries_read(decoded, r));
        return r;
    }
    let r: Result<Vec<T>, WireFormatError> = Ok(entries);
    assert(entries_read(decoded, r));
    r
}

/// Makes room for `count` more elements.
///
/// Calls `Vec::try_reserve_exact`, which leaves the elements as they are. Whether there is
/// room depends on the machine, and so does what the error says.
#[verifier::external_body]
fn make_room_for<T>(entries: &mut Vec<T>, count: usize) -> (r: Result<(), String>)
    ensures
        final(entries)@ == old(entries)@,
{
    entries.try_reserve_exact(count).map_err(|err| err.to_string())
}

/// Decodes `count` entries from all of `body`. There may be no room for them, which is an
/// error as well; no entries need no room.
pub fn decode_punnu_entries_body<T: WirePayload>(body: &[u8], count: usize) -> (r: Result<
    Vec<T>,
    WireFormatError,
>)
    ensures
        (count > 0 && no_room(count as nat, r)) || exists|decoded: Result<(Seq<T>, Seq<u8>), Seq<char>>|
            may_decode_all(body@, count as nat, decoded) && #[trigger] entries_read(decoded, r),
{
    let mut entries: Vec<T> = Vec::new();
    if count == 0 {
        return decode_entries_into(body, count, entries);
    }
    match make_room_for(&mut entries, count) {
        Ok(()) => decode_entries_into(body, count, entries),
        Err(said) => {
            let mut text = "could not reserve capacity for ".to_owned();
            push_decimal(&mut text, count as u64);
            text.append(" punnu entries: ");
            text.append(said.as_str());
            assert(text@ =~= "could not reserve capacity for "@ + crate::text::decimal(
                count as nat,
            ) + " punnu entries: "@ + said@);
            let r: Result<Vec<T>, WireFormatError> = Err(WireFormatError::Codec(text));
            assert(is_room_error(count as nat, said@, r));
            r
        },
    }
}

/// The error that there is no room for the entries, for the reason `said`.
pub open spec fn is_room_error<T>(
    count: nat,
    said: Seq<char>,
    r: Result<Vec<T>, WireFormatError>,
) -> bool {
    r matches Err(WireFormatError::Codec(text)) && text@ == "could not reserve capacity for "@
        + crate::text::decimal(count) + " punnu entries: "@ + said
}

/// The error that there is no room for the entries.
pub open spec fn no_room<T>(count: nat, r: Result<Vec<T>, WireFormatError>) -> bool {
    exists|said: Seq<char>| #[trigger] is_room_error(count, said, r)
}

/// Checks the header of a container of entries with internal state and finds its body.
pub fn decode_punnu_entries_with_hints<'a, T: Cacheable>(bytes: &'a [u8]) -> (r: Result<
    &'a [u8],
    WireFormatError,
>)
    ensures
        body_of(bytes@, KIND_PUNNU_ENTRIES_WITH_HINTS, T::spec_type_label(), r),
{
    decode_header::<T>(bytes, WireKind::PunnuEntriesWithHints)
}

/// Appends the header of a container of entries with internal state.
pub fn encode_punnu_entries_with_hints_header<T: Cacheable>(out: &mut Vec<u8>) -> (r: Result<
    (),
    WireFormatError,
>)
    ensures
        ({
            let name = vstd::utf8::encode_utf8(T::spec_type_label());
            if name.len() > u16::MAX {
                &&& r matches Err(WireFormatError::MalformedHeader(text)) && text@
                    == "cache type name exceeds u16 length"@
                &&& final(out)@ == old(out)@
            } else {
                &&& r is Ok
                &&& final(out)@ == old(out)@ + header(
                    KIND_PUNNU_ENTRIES_WITH_HINTS,
                    T::spec_type_label(),
                )
            }
        }),
{
    encode_header::<T>(WireKind::PunnuEntriesWithHints, out)
}

} // verus!
