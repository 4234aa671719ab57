//! What holds of every container.

use vstd::prelude::*;
use crate::cacheable::Cacheable;
use crate::error::WireFormatError;
use crate::payload::WirePayload;
use crate::wire::{
    lemma_two_bytes,
    FIRST_RESERVED_KIND,
    HEADER_FIXED_LEN,
    KIND_PUNNU_ENTRIES,
    KIND_VALUE,
};
use std::sync::Arc;

verus! {

/// The parts of a header and what follows it.
proof fn lemma_header_parts(kind: u8, label: Seq<char>, body: Seq<u8>)
    requires
        kind < FIRST_RESERVED_KIND,
        vstd::utf8::encode_utf8(label).len() <= u16::MAX,
    ensures
        ({
            let bytes = crate::wire::header(kind, label) + body;
            let name = vstd::utf8::encode_utf8(label);
            let name_end = HEADER_FIXED_LEN + name.len();
            &&& bytes.len() == name_end + body.len()
            &&& crate::wire::kind_of(bytes, Ok(kind))
            &&& bytes[10] == kind
            &&& bytes[11] == 0
            &&& crate::wire::little_endian(bytes.subrange(12, 14)) == name.len()
            &&& bytes.subrange(HEADER_FIXED_LEN as int, name_end as int) == name
            &&& bytes.skip(name_end as int) == body
        }),
{
    let head = crate::wire::header(kind, label);
    let bytes = head + body;
    let name = vstd::utf8::encode_utf8(label);
    let name_end = HEADER_FIXED_LEN + name.len();
    assert(head.len() == name_end);
    assert(bytes.take(8) =~= crate::wire::magic());
    assert(bytes[0] == crate::wire::magic()[0]);
    lemma_two_bytes(bytes.subrange(8, 10));
    lemma_two_bytes(bytes.subrange(12, 14));
    assert(bytes[12] == (name.len() % 256) as u8);
    assert(bytes[13] == (name.len() / 256) as u8);
    assert(bytes.subrange(HEADER_FIXED_LEN as int, name_end as int) =~= name);
    assert(bytes.skip(name_end as int) =~= body);
}

/// A reader of the kind and the type that were written finds the body that was written.
pub proof fn header_reads_back(
    kind: u8,
    label: Seq<char>,
    body: Seq<u8>,
    r: Result<&[u8], WireFormatError>,
)
    requires
        kind < FIRST_RESERVED_KIND,
        vstd::utf8::encode_utf8(label).len() <= u16::MAX,
        crate::wire::body_of(crate::wire::header(kind, label) + body, kind, label, r),
    ensures
        r matches Ok(found) && found@ == body,
{
    lemma_header_parts(kind, label, body);
    vstd::utf8::encode_utf8_valid_utf8(label);
    vstd::utf8::encode_utf8_decode_utf8(label);
}

/// A container is never taken for one of another kind.
pub proof fn other_kinds_are_refused(
    written: u8,
    expected: u8,
    label: Seq<char>,
    other: Seq<char>,
    body: Seq<u8>,
    r: Result<&[u8], WireFormatError>,
)
    requires
        written < FIRST_RESERVED_KIND,
        written != expected,
        vstd::utf8::encode_utf8(label).len() <= u16::MAX,
        crate::wire::body_of(crate::wire::header(written, label) + body, expected, other, r),
    ensures
        r == Err::<&[u8], WireFormatError>(
            WireFormatError::KindMismatch { got: written, expected },
        ),
{
    lemma_header_parts(written, label, body);
}

/// A container is never taken for one of another type.
pub proof fn other_types_are_refused(
    kind: u8,
    label: Seq<char>,
    other: Seq<char>,
    body: Seq<u8>,
    r: Result<&[u8], WireFormatError>,
)
    requires
        kind < FIRST_RESERVED_KIND,
        label != other,
        vstd::utf8::encode_utf8(label).len() <= u16::MAX,
        crate::wire::body_of(crate::wire::header(kind, label) + body, kind, other, r),
    ensures
        r matches Err(WireFormatError::TypeNameMismatch { got, expected }) && got@ == label
            && expected@ == other,
{
    lemma_header_parts(kind, label, body);
    vstd::utf8::encode_utf8_valid_utf8(label);
    vstd::utf8::encode_utf8_decode_utf8(label);
}

/// A value that was put into a container is read out of it again.
pub proof fn values_read_back<T: Cacheable + WirePayload>(
    value: T,
    bytes: Vec<u8>,
    r: Result<T, WireFormatError>,
)
    requires
        crate::payload::reads_back::<T>(),
        crate::wire::may_write(value, KIND_VALUE, Ok(bytes)),
        crate::wire::may_read::<T>(bytes@, KIND_VALUE, r),
    ensures
        r == Ok::<T, WireFormatError>(value),
{
    let label = T::spec_type_label();
    let encoded = choose|encoded: Result<Seq<u8>, Seq<char>>| #[trigger]
        value.may_encode(encoded) && crate::wire::framed(KIND_VALUE, label, encoded, Ok(bytes));
    let body = encoded->Ok_0;
    lemma_read_after_write::<T>(value, body, Seq::empty(), bytes@, r);
}

/// What is read out of a container of an encoded value with bytes after it.
proof fn lemma_read_after_write<T: Cacheable + WirePayload>(
    value: T,
    body: Seq<u8>,
    rest: Seq<u8>,
    bytes: Seq<u8>,
    r: Result<T, WireFormatError>,
)
    requires
        crate::payload::reads_back::<T>(),
        value.may_encode(Ok(body)),
        vstd::utf8::encode_utf8(T::spec_type_label()).len() <= u16::MAX,
        bytes + rest == crate::wire::header(KIND_VALUE, T::spec_type_label()) + (body + rest),
        crate::wire::may_read::<T>(bytes + rest, KIND_VALUE, r),
    ensures
        rest.len() == 0 ==> r == Ok::<T, WireFormatError>(value),
        rest.len() > 0 ==> (r matches Err(WireFormatError::Codec(text)) && text@
            == "trailing bytes after postcard body"@),
{
    let label = T::spec_type_label();
    if exists|found: &[u8]| #[trigger]
        crate::wire::body_of(bytes + rest, KIND_VALUE, label, Ok(found))
            && crate::wire::may_read_exactly::<T>(found@, r) {
        let found = choose|found: &[u8]| #[trigger]
            crate::wire::body_of(bytes + rest, KIND_VALUE, label, Ok(found))
                && crate::wire::may_read_exactly::<T>(found@, r);
        header_reads_back(KIND_VALUE, label, body + rest, Ok(found));
        let decoded = choose|decoded: Result<(T, nat), Seq<char>>| #[trigger]
            T::may_decode(found@, decoded) && crate::wire::read_exactly(
                decoded,
                found@.len(),
                r,
            );
        assert(found@ == body + rest);
        assert(decoded == Ok::<(T, nat), Seq<char>>((value, body.len())));
    } else {
        header_reads_back(KIND_VALUE, label, body + rest, Err(r->Err_0));
    }
}

/// A container with bytes after its value is refused.
pub proof fn trailing_bytes_are_refused<T: Cacheable + WirePayload>(
    value: T,
    bytes: Vec<u8>,
    rest: Seq<u8>,
    r: Result<T, WireFormatError>,
)
    requires
        crate::payload::reads_back::<T>(),
        crate::wire::may_write(value, KIND_VALUE, Ok(bytes)),
        rest.len() > 0,
        crate::wire::may_read::<T>(bytes@ + rest, KIND_VALUE, r),
    ensures
        r matches Err(WireFormatError::Codec(text)) && text@
            == "trailing bytes after postcard body"@,
{
    let label = T::spec_type_label();
    let encoded = choose|encoded: Result<Seq<u8>, Seq<char>>| #[trigger]
        value.may_encode(encoded) && crate::wire::framed(KIND_VALUE, label, encoded, Ok(bytes));
    let body = encoded->Ok_0;
    assert(bytes@ + rest =~= crate::wire::header(KIND_VALUE, label) + (body + rest));
    lemma_read_after_write::<T>(value, body, rest, bytes@, r);
}

/// Entries, each on its own.
pub open spec fn plain<T>(entries: Seq<Arc<T>>) -> Seq<T> {
    Seq::new(entries.len(), |i: int| *entries[i])
}

/// Entries that were encoded one after the other are decoded again, whatever follows.
pub proof fn entries_read_back<T: WirePayload>(
    entries: Seq<Arc<T>>,
    body: Seq<u8>,
    rest: Seq<u8>,
    r: Result<(Seq<T>, Seq<u8>), Seq<char>>,
)
    requires
        crate::payload::reads_back::<T>(),
        crate::wire::may_encode_all(entries, Ok(body)),
        crate::wire::may_decode_all::<T>(body + rest, entries.len(), r),
    ensures
        r == Ok::<(Seq<T>, Seq<u8>), Seq<char>>((plain(entries), rest)),
    decreases entries.len(),
{
    if entries.len() == 0 {
        assert(body + rest =~= rest);
        assert(plain(entries) =~= Seq::<T>::empty());
    } else {
        let (before, last) = choose|
            before: Result<Seq<u8>, Seq<char>>,
            last: Result<Seq<u8>, Seq<char>>,
        |
            #![trigger crate::wire::follow(before, last)]
            crate::wire::may_encode_all(entries.drop_last(), before) && (before is Ok
                ==> entries.last().may_encode(last)) && Ok::<Seq<u8>, Seq<char>>(body)
                == crate::wire::follow(before, last);
        let head = before->Ok_0;
        let tail = last->Ok_0;
        assert(body == head + tail);
        let count = (entries.len() - 1) as nat;
        let (was, next) = choose|
            was: Result<(Seq<T>, Seq<u8>), Seq<char>>,
            next: Result<(T, nat), Seq<char>>,
        |
            #![trigger crate::wire::read_on(was, next)]
            crate::wire::may_decode_all(body + rest, count, was) && (was matches Ok((_, left))
                ==> T::may_decode(left, next)) && r == crate::wire::read_on(was, next);
        assert(body + rest =~= head + (tail + rest));
        entries_read_back::<T>(entries.drop_last(), head, tail + rest, was);
        assert(T::may_decode(tail + rest, next));
        assert(next == Ok::<(T, nat), Seq<char>>((*entries.last(), tail.len())));
        assert((tail + rest).skip(tail.len() as int) =~= rest);
        assert(plain(entries.drop_last()).push(*entries.last()) =~= plain(entries));
    }
}

/// A snapshot of entries says how many entries it has and where they start.
pub proof fn snapshot_counts_its_entries(
    label: Seq<char>,
    count: nat,
    body: Seq<u8>,
    bytes: Vec<u8>,
    r: Result<(usize, &[u8]), WireFormatError>,
)
    requires
        vstd::utf8::encode_utf8(label).len() <= u16::MAX,
        count <= u32::MAX,
        crate::wire::framed_entries(label, count, Ok(body), Ok(bytes)),
        crate::wire::counted_body(bytes@, label, r),
    ensures
        r matches Ok((found, rest)) && found == count && rest@ == body,
{
    let counted = choose|counted: Seq<u8>| #[trigger]
        crate::wire::is_little_endian(counted, count as int, 4) && bytes@ == crate::wire::header(
            KIND_PUNNU_ENTRIES,
            label,
        ) + counted + body;
    assert(bytes@ =~= crate::wire::header(KIND_PUNNU_ENTRIES, label) + (counted + body));
    if exists|found: &[u8]| #[trigger]
        crate::wire::body_of(bytes@, KIND_PUNNU_ENTRIES, label, Ok(found)) {
        assert forall|found: &[u8]| #[trigger]
            crate::wire::body_of(bytes@, KIND_PUNNU_ENTRIES, label, Ok(found)) implies found@
            == counted + body by {
            header_reads_back(KIND_PUNNU_ENTRIES, label, counted + body, Ok(found));
        }
    }
    assert((counted + body).take(4) =~= counted);
    assert((counted + body).skip(4) =~= body);
    if r is Err && crate::wire::body_of(bytes@, KIND_PUNNU_ENTRIES, label, Err(r->Err_0)) {
        header_reads_back(KIND_PUNNU_ENTRIES, label, counted + body, Err(r->Err_0));
    }
}

/// Where the parts of a container stand: the letters of the name of the format with a zero
/// byte after each word, the major version and the length of the type's name in two bytes,
/// least significant first, the kind and the flags between them, and then the name.
pub proof fn headers_have_their_parts_in_place(kind: u8, label: Seq<char>, body: Seq<u8>)
    requires
        vstd::utf8::encode_utf8(label).len() <= u16::MAX,
    ensures
        ({
            let bytes = crate::wire::header(kind, label) + body;
            let name = vstd::utf8::encode_utf8(label);
            &&& bytes.len() == 14 + name.len() + body.len()
            &&& bytes[0] == 0x53 && bytes[1] == 0x41 && bytes[2] == 0x53 && bytes[3] == 0x53
                && bytes[4] == 0x49 && bytes[5] == 0 && bytes[6] == 0x57 && bytes[7] == 0
            &&& bytes[8] == 1 && bytes[9] == 0
            &&& bytes[10] == kind
            &&& bytes[11] == 0
            &&& bytes[12] + 256 * bytes[13] == name.len()
            &&& bytes.subrange(14, 14 + name.len() as int) == name
            &&& bytes.skip(14 + name.len() as int) == body
        }),
{
    let bytes = crate::wire::header(kind, label) + body;
    let name = vstd::utf8::encode_utf8(label);
    assert(bytes.subrange(14, 14 + name.len() as int) =~= name);
    assert(bytes.skip(14 + name.len() as int) =~= body);
}

/// What is read as a container is one: it has the letters, the version, a kind that is
/// known, and the kind that was asked for.
pub proof fn only_containers_are_read(
    bytes: Seq<u8>,
    kind: u8,
    label: Seq<char>,
    r: Result<&[u8], WireFormatError>,
)
    requires
        crate::wire::body_of(bytes, kind, label, r),
        r is Ok,
    ensures
        bytes.len() >= 14,
        bytes[0] == 0x53 && bytes[1] == 0x41 && bytes[2] == 0x53 && bytes[3] == 0x53 && bytes[4]
            == 0x49 && bytes[5] == 0 && bytes[6] == 0x57 && bytes[7] == 0,
        bytes[8] == 1 && bytes[9] == 0,
        bytes[10] == kind && kind < 5,
        bytes[11] == 0,
        ({
            let end = 14 + bytes[12] + 256 * bytes[13];
            &&& end <= bytes.len()
            &&& vstd::utf8::valid_utf8(bytes.subrange(14, end))
            &&& vstd::utf8::decode_utf8(bytes.subrange(14, end)) == label
            &&& r->Ok_0@ == bytes.skip(end)
        }),
{
    crate::wire::lemma_two_bytes(bytes.subrange(8, 10));
    crate::wire::lemma_two_bytes(bytes.subrange(12, 14));
    let t = bytes.take(8);
    assert(t == crate::wire::magic());
    assert(t[0] == bytes[0] && t[1] == bytes[1] && t[2] == bytes[2] && t[3] == bytes[3] && t[4]
        == bytes[4] && t[5] == bytes[5] && t[6] == bytes[6] && t[7] == bytes[7]);
}

/// A container whose flags are not zero is refused, and so is one of a kind that is not
/// known or of another major version.
pub proof fn unknown_containers_are_refused(
    bytes: Seq<u8>,
    kind: u8,
    label: Seq<char>,
    r: Result<&[u8], WireFormatError>,
)
    requires
        crate::wire::body_of(bytes, kind, label, r),
        bytes.len() >= 14,
        bytes[11] != 0 || bytes[10] >= 5 || bytes[8] != 1 || bytes[9] != 0,
    ensures
        r is Err,
{
    crate::wire::lemma_two_bytes(bytes.subrange(8, 10));
}

/// Each kind has its byte.
pub proof fn kinds_have_their_bytes(kind: crate::wire::WireKind)
    ensures
        kind.byte() == match kind {
            crate::wire::WireKind::Value => 1u8,
            crate::wire::WireKind::FileEntry => 2u8,
            crate::wire::WireKind::PunnuEntries => 3u8,
            crate::wire::WireKind::PunnuEntriesWithHints => 4u8,
        },
{
}

/// A snapshot says in four bytes after its header, least significant first, how many entries
/// it holds.
pub proof fn snapshots_start_with_their_count(
    label: Seq<char>,
    count: nat,
    body: Seq<u8>,
    bytes: Vec<u8>,
)
    requires
        vstd::utf8::encode_utf8(label).len() <= u16::MAX,
        count <= u32::MAX,
        crate::wire::framed_entries(label, count, Ok(body), Ok(bytes)),
    ensures
        ({
            let at = 14 + vstd::utf8::encode_utf8(label).len() as int;
            &&& bytes@.len() == at + 4 + body.len()
            &&& bytes@[10] == 3
            &&& bytes@[at] + 256 * (bytes@[at + 1] + 256 * (bytes@[at + 2] + 256 * bytes@[at + 3]))
                == count
            &&& bytes@.skip(at + 4) == body
        }),
{
    let counted = choose|counted: Seq<u8>| #[trigger]
        crate::wire::is_little_endian(counted, count as int, 4) && bytes@ == crate::wire::header(
            KIND_PUNNU_ENTRIES,
            label,
        ) + counted + body;
    let at = 14 + vstd::utf8::encode_utf8(label).len() as int;
    headers_have_their_parts_in_place(KIND_PUNNU_ENTRIES, label, counted + body);
    assert(bytes@ =~= crate::wire::header(KIND_PUNNU_ENTRIES, label) + (counted + body));
    assert(bytes@.skip(at + 4) =~= body);
    reveal_with_fuel(crate::wire::little_endian, 5);
    assert(counted.drop_first().drop_first().drop_first().drop_first().len() == 0);
    assert(bytes@[at] == counted[0] && bytes@[at + 1] == counted[1] && bytes@[at + 2] == counted[2]
        && bytes@[at + 3] == counted[3]);
}

} // verus!
