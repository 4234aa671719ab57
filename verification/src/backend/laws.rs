//! What holds of every key.

use vstd::prelude::*;
use crate::backend::keyspace::BackendKeyspace;
use crate::cacheable::Cacheable;
use crate::error::{BackendError, WireFormatError};
use crate::payload::WirePayload;
use crate::wire::KIND_FILE_ENTRY;
use crate::wire_laws::{header_reads_back, values_read_back};

verus! {

/// Different digits stand for different numbers, and none is a separator.
proof fn lemma_hex_digit(a: int, b: int)
    requires
        0 <= a < 16,
        0 <= b < 16,
    ensures
        crate::backend::keyspace::hex_digit(a) == crate::backend::keyspace::hex_digit(b) ==> a == b,
        crate::backend::keyspace::hex_digit(a) != '/',
        crate::backend::keyspace::hex_digit(a) != 'n',
{
}

/// Different bytes have different digits.
pub proof fn hex_is_faithful(a: Seq<u8>, b: Seq<u8>)
    requires
        crate::backend::keyspace::hex(a) == crate::backend::keyspace::hex(b),
    ensures
        a == b,
    decreases a.len(),
{
    lemma_hex_len(a);
    lemma_hex_len(b);
    if a.len() > 0 {
        let x = crate::backend::keyspace::hex(a);
        let y = crate::backend::keyspace::hex(b);
        let n = x.len() as int;
        assert(x.take(n - 2) =~= crate::backend::keyspace::hex(a.drop_last()));
        assert(y.take(n - 2) =~= crate::backend::keyspace::hex(b.drop_last()));
        hex_is_faithful(a.drop_last(), b.drop_last());
        assert(x[n - 2] == crate::backend::keyspace::hex_digit(a.last() as int / 16));
        assert(y[n - 2] == crate::backend::keyspace::hex_digit(b.last() as int / 16));
        assert(x[n - 1] == crate::backend::keyspace::hex_digit(a.last() as int % 16));
        assert(y[n - 1] == crate::backend::keyspace::hex_digit(b.last() as int % 16));
        lemma_hex_digit(a.last() as int / 16, b.last() as int / 16);
        lemma_hex_digit(a.last() as int % 16, b.last() as int % 16);
        assert(a =~= a.drop_last().push(a.last()));
        assert(b =~= b.drop_last().push(b.last()));
    } else {
        assert(a =~= b);
    }
}

/// Two digits for each byte, none of them a separator.
proof fn lemma_hex_len(bytes: Seq<u8>)
    ensures
        crate::backend::keyspace::hex(bytes).len() == 2 * bytes.len(),
        forall|i: int|
            0 <= i < crate::backend::keyspace::hex(bytes).len() ==> (
            #[trigger] crate::backend::keyspace::hex(bytes)[i]) != '/'
                && crate::backend::keyspace::hex(bytes)[i] != 'n',
    decreases bytes.len(),
{
    if bytes.len() > 0 {
        lemma_hex_len(bytes.drop_last());
        lemma_hex_digit(bytes.last() as int / 16, 0);
        lemma_hex_digit(bytes.last() as int % 16, 0);
    }
}

/// The codes of a number start differently or go on differently.
proof fn lemma_varint_faithful(a: nat, b: nat)
    requires
        crate::payload::varint(a) == crate::payload::varint(b),
    ensures
        a == b,
    decreases a,
{
    let x = crate::payload::varint(a);
    let y = crate::payload::varint(b);
    if a < 128 {
        assert(x[0] == a as u8);
        assert(y[0] == a as u8);
        if b >= 128 {
            assert(y[0] == (128 + b % 128) as u8);
        }
    } else {
        assert(x[0] == (128 + a % 128) as u8);
        if b < 128 {
            assert(y[0] == b as u8);
        } else {
            assert(y[0] == (128 + b % 128) as u8);
            assert(x.drop_first() =~= crate::payload::varint(a / 128));
            assert(y.drop_first() =~= crate::payload::varint(b / 128));
            lemma_varint_faithful(a / 128, b / 128);
        }
    }
}

/// Different ids have different codes.
pub proof fn id_codes_are_faithful(a: i64, b: i64)
    requires
        crate::payload::id_code(a) == crate::payload::id_code(b),
    ensures
        a == b,
{
    lemma_varint_faithful(crate::payload::zigzag(a as int), crate::payload::zigzag(b as int));
}

/// A text is split at its first separator in one way only.
proof fn lemma_split(a: Seq<char>, x: Seq<char>, b: Seq<char>, y: Seq<char>)
    requires
        a + seq!['/'] + x == b + seq!['/'] + y,
        forall|i: int| 0 <= i < a.len() ==> #[trigger] a[i] != '/',
        forall|i: int| 0 <= i < b.len() ==> #[trigger] b[i] != '/',
    ensures
        a == b,
        x == y,
{
    let s = a + seq!['/'] + x;
    let t = b + seq!['/'] + y;
    assert(s[a.len() as int] == '/');
    assert(t[b.len() as int] == '/');
    if a.len() < b.len() {
        assert(t[a.len() as int] == b[a.len() as int]);
    }
    if b.len() < a.len() {
        assert(s[b.len() as int] == a[b.len() as int]);
    }
    assert(a.len() == b.len());
    assert(a =~= s.take(a.len() as int));
    assert(b =~= t.take(b.len() as int));
    assert(x =~= s.skip((a.len() + 1) as int));
    assert(y =~= t.skip((b.len() + 1) as int));
}

/// The part of a namespace holds no separator.
proof fn lemma_namespace_part(namespace: Option<String>)
    ensures
        forall|i: int|
            0 <= i < crate::backend::keyspace::namespace_part(namespace).len() ==> (
            #[trigger] crate::backend::keyspace::namespace_part(namespace)[i]) != '/',
{
    reveal_strlit("ns_");
    reveal_strlit("ns_none");
    match namespace {
        Some(text) => {
            lemma_hex_len(vstd::utf8::encode_utf8(text@));
        },
        None => {},
    }
}

/// The same namespace, or none in both.
pub open spec fn same_namespace(a: Option<String>, b: Option<String>) -> bool {
    match (a, b) {
        (Some(x), Some(y)) => x@ == y@,
        (None, None) => true,
        _ => false,
    }
}

/// Different namespaces have different parts; no namespace has a part of its own.
proof fn lemma_namespace_is_faithful(a: Option<String>, b: Option<String>)
    requires
        crate::backend::keyspace::namespace_part(a) == crate::backend::keyspace::namespace_part(b),
    ensures
        same_namespace(a, b),
{
    reveal_strlit("ns_");
    reveal_strlit("ns_none");
    let x = crate::backend::keyspace::namespace_part(a);
    let y = crate::backend::keyspace::namespace_part(b);
    match (a, b) {
        (Some(s), Some(t)) => {
            let p = crate::backend::keyspace::hex(vstd::utf8::encode_utf8(s@));
            let q = crate::backend::keyspace::hex(vstd::utf8::encode_utf8(t@));
            assert(p =~= x.skip(3));
            assert(q =~= y.skip(3));
            hex_is_faithful(vstd::utf8::encode_utf8(s@), vstd::utf8::encode_utf8(t@));
            crate::text::lemma_bytes_determine_text(s@, t@);
        },
        (Some(s), None) => {
            let p = crate::backend::keyspace::hex(vstd::utf8::encode_utf8(s@));
            lemma_hex_len(vstd::utf8::encode_utf8(s@));
            assert(y[3] == 'n');
            assert(x[3] == p[0]);
        },
        (None, Some(t)) => {
            let q = crate::backend::keyspace::hex(vstd::utf8::encode_utf8(t@));
            lemma_hex_len(vstd::utf8::encode_utf8(t@));
            assert(x[3] == 'n');
            assert(y[3] == q[0]);
        },
        (None, None) => {},
    }
}

/// Keys that go on after the same start are of the same namespace and type.
proof fn lemma_prefix_is_faithful(
    a: BackendKeyspace,
    x: Seq<char>,
    b: BackendKeyspace,
    y: Seq<char>,
)
    requires
        crate::backend::keyspace::key_prefix(a) + x == crate::backend::keyspace::key_prefix(b) + y,
    ensures
        same_namespace(a.namespace, b.namespace),
        a.cached_type@ == b.cached_type@,
        x == y,
{
    reveal_strlit("/");
    reveal_strlit("ty_");
    let na = crate::backend::keyspace::namespace_part(a.namespace);
    let nb = crate::backend::keyspace::namespace_part(b.namespace);
    let ta = crate::backend::keyspace::type_part(a.cached_type@);
    let tb = crate::backend::keyspace::type_part(b.cached_type@);
    lemma_namespace_part(a.namespace);
    lemma_namespace_part(b.namespace);
    lemma_hex_len(vstd::utf8::encode_utf8(a.cached_type@));
    lemma_hex_len(vstd::utf8::encode_utf8(b.cached_type@));
    assert(crate::backend::keyspace::key_prefix(a) + x =~= na + seq!['/'] + (ta + seq!['/'] + x));
    assert(crate::backend::keyspace::key_prefix(b) + y =~= nb + seq!['/'] + (tb + seq!['/'] + y));
    lemma_split(na, ta + seq!['/'] + x, nb, tb + seq!['/'] + y);
    lemma_split(ta, x, tb, y);
    lemma_namespace_is_faithful(a.namespace, b.namespace);
    let p = crate::backend::keyspace::hex(vstd::utf8::encode_utf8(a.cached_type@));
    let q = crate::backend::keyspace::hex(vstd::utf8::encode_utf8(b.cached_type@));
    assert(p =~= ta.skip(3));
    assert(q =~= tb.skip(3));
    hex_is_faithful(
        vstd::utf8::encode_utf8(a.cached_type@),
        vstd::utf8::encode_utf8(b.cached_type@),
    );
    crate::text::lemma_bytes_determine_text(a.cached_type@, b.cached_type@);
}

/// Two ids share a key only where they are the same, in the same namespace and of the
/// same type.
pub proof fn storage_keys_are_distinct(a: BackendKeyspace, i: i64, b: BackendKeyspace, j: i64)
    requires
        crate::backend::keyspace::storage_key(a, i) == crate::backend::keyspace::storage_key(b, j),
    ensures
        same_namespace(a.namespace, b.namespace),
        a.cached_type@ == b.cached_type@,
        i == j,
{
    reveal_strlit("id_");
    let x = "id_"@ + crate::backend::keyspace::hex(crate::payload::id_code(i));
    let y = "id_"@ + crate::backend::keyspace::hex(crate::payload::id_code(j));
    lemma_prefix_is_faithful(a, x, b, y);
    assert(x.skip(3) =~= crate::backend::keyspace::hex(crate::payload::id_code(i)));
    assert(y.skip(3) =~= crate::backend::keyspace::hex(crate::payload::id_code(j)));
    hex_is_faithful(crate::payload::id_code(i), crate::payload::id_code(j));
    id_codes_are_faithful(i, j);
}

/// A key starts with the prefix of a keyspace exactly where it is a key of that keyspace.
pub proof fn prefix_covers_its_keyspace_only(a: BackendKeyspace, b: BackendKeyspace, id: i64)
    ensures
        crate::backend::keyspace::key_prefix(a).is_prefix_of(
            crate::backend::keyspace::storage_key(b, id),
        ) == (same_namespace(a.namespace, b.namespace) && a.cached_type@ == b.cached_type@),
{
    let prefix = crate::backend::keyspace::key_prefix(a);
    let key = crate::backend::keyspace::storage_key(b, id);
    if prefix.is_prefix_of(key) {
        let rest = key.skip(prefix.len() as int);
        assert(key =~= prefix + rest);
        lemma_prefix_is_faithful(
            a,
            rest,
            b,
            "id_"@ + crate::backend::keyspace::hex(crate::payload::id_code(id)),
        );
    }
    if same_namespace(a.namespace, b.namespace) && a.cached_type@ == b.cached_type@ {
        assert(prefix == crate::backend::keyspace::key_prefix(b));
        assert(key.take(prefix.len() as int) =~= prefix);
    }
}

/// A value that was stored and has not expired is found again.
pub proof fn stored_value_is_found<T: Cacheable + WirePayload>(
    value: T,
    bytes: Vec<u8>,
    r: Result<Option<T>, BackendError>,
)
    requires
        crate::payload::reads_back::<T>(),
        crate::wire::may_write(value, crate::wire::KIND_VALUE, Ok(bytes)),
        crate::backend::keyspace::may_find::<T>(bytes@, r),
    ensures
        r == Ok::<Option<T>, BackendError>(Some(value)),
{
    match r {
        Ok(Some(found)) => {
            values_read_back(value, bytes, Ok(found));
        },
        Err(BackendError::WireFormat(err)) => {
            values_read_back(value, bytes, Err(err));
        },
        _ => {},
    }
}

/// Dropping the values of one keyspace leaves those of the others.
pub proof fn other_keyspaces_keep_their_values(
    m: Map<Seq<char>, (Seq<u8>, Option<u128>)>,
    a: BackendKeyspace,
    b: BackendKeyspace,
    id: i64,
)
    ensures
        crate::backend::memory::found(
            crate::backend::memory::without_prefix(m, crate::backend::keyspace::key_prefix(a)),
            crate::backend::keyspace::storage_key(b, id),
        ) == (if same_namespace(a.namespace, b.namespace) && a.cached_type@ == b.cached_type@ {
            None
        } else {
            crate::backend::memory::found(m, crate::backend::keyspace::storage_key(b, id))
        }),
{
    prefix_covers_its_keyspace_only(a, b, id);
}

/// An entry gives back when it expires, and its value until then.
pub proof fn file_entry_reads_back<T: Cacheable + WirePayload>(
    value: T,
    body: Seq<u8>,
    expires_at_ms: Option<u64>,
    bytes: Vec<u8>,
    now_ms: u64,
    r: Result<(Option<u64>, Option<T>), BackendError>,
)
    requires
        crate::payload::reads_back::<T>(),
        value.may_encode(Ok(body)),
        crate::backend::file::framed_entry(
            T::spec_type_label(),
            expires_at_ms,
            Ok(body),
            Ok(bytes),
        ),
        crate::backend::file::may_read_entry::<T>(bytes@, now_ms, r),
    ensures
        r == Ok::<(Option<u64>, Option<T>), BackendError>(
            (
                expires_at_ms,
                if crate::backend::file::has_expired(expires_at_ms, now_ms) {
                    None
                } else {
                    Some(value)
                },
            ),
        ),
{
    let label = T::spec_type_label();
    let prefix = choose|prefix: Seq<u8>| #[trigger]
        crate::backend::file::expiry_prefix(expires_at_ms, prefix) && bytes@
            == crate::wire::header(KIND_FILE_ENTRY, label) + prefix + body;
    assert(bytes@ =~= crate::wire::header(KIND_FILE_ENTRY, label) + (prefix + body));
    assert forall|found: &[u8]| #[trigger]
        crate::wire::body_of(bytes@, KIND_FILE_ENTRY, label, Ok(found)) implies found@ == prefix
        + body by {
        header_reads_back(KIND_FILE_ENTRY, label, prefix + body, Ok(found));
    }
    if exists|found: &[u8]| #[trigger]
        crate::wire::body_of(bytes@, KIND_FILE_ENTRY, label, Ok(found))
            && crate::backend::file::may_read_body(found@, now_ms, r) {
        let all = prefix + body;
        assert(all.subrange(1, 9) =~= prefix.skip(1));
        assert(all.skip(9) =~= body);
        assert(all[0] == prefix[0]);
        assert forall|e: Result<T, WireFormatError>|
            crate::wire::may_read_exactly::<T>(body, e) implies e == Ok::<T, WireFormatError>(
            value,
        ) by {
            let decoded = choose|decoded: Result<(T, nat), Seq<char>>| #[trigger]
                T::may_decode(body, decoded) && crate::wire::read_exactly(decoded, body.len(), e);
            assert(body + Seq::<u8>::empty() =~= body);
            assert(T::may_decode(body + Seq::<u8>::empty(), decoded));
        }
        assert(crate::backend::file::expiry_of(all, Ok(expires_at_ms)));
    } else {
        match r {
            Err(BackendError::WireFormat(err)) => {
                header_reads_back(KIND_FILE_ENTRY, label, prefix + body, Err(err));
            },
            _ => {},
        }
    }
}

/// Decimal digits are no separators.
proof fn lemma_decimal_has_no_dash(n: nat)
    ensures
        forall|i: int|
            0 <= i < crate::text::decimal(n).len() ==> (#[trigger] crate::text::decimal(n)[i])
                != '-',
    decreases n,
{
    let digits = crate::text::decimal(n);
    if n >= 10 {
        lemma_decimal_has_no_dash(n / 10);
        let before = crate::text::decimal(n / 10);
        assert forall|i: int| 0 <= i < digits.len() implies #[trigger] digits[i] != '-' by {
            if i < before.len() {
                assert(digits[i] == before[i]);
            }
        }
    }
}

/// Different numbers have different digits.
proof fn lemma_decimal_is_faithful(a: nat, b: nat)
    requires
        crate::text::decimal(a) == crate::text::decimal(b),
    ensures
        a == b,
    decreases a,
{
    let x = crate::text::decimal(a);
    let y = crate::text::decimal(b);
    lemma_decimal_len(a);
    lemma_decimal_len(b);
    if a >= 10 && b >= 10 {
        assert(x.drop_last() =~= crate::text::decimal(a / 10));
        assert(y.drop_last() =~= crate::text::decimal(b / 10));
        lemma_decimal_is_faithful(a / 10, b / 10);
        assert(x.last() == crate::text::digit(a % 10));
        assert(y.last() == crate::text::digit(b % 10));
    } else if a < 10 && b < 10 {
        assert(x[0] == crate::text::digit(a));
        assert(y[0] == crate::text::digit(b));
    }
}

/// One digit below ten, and more from there on.
proof fn lemma_decimal_len(n: nat)
    ensures
        crate::text::decimal(n).len() >= 1,
        n >= 10 ==> crate::text::decimal(n).len() >= 2,
    decreases n,
{
    if n >= 10 {
        lemma_decimal_len(n / 10);
    }
}

/// A text is split at its first dash in one way only.
proof fn lemma_split_at_dash(a: Seq<char>, x: Seq<char>, b: Seq<char>, y: Seq<char>)
    requires
        a + seq!['-'] + x == b + seq!['-'] + y,
        forall|i: int| 0 <= i < a.len() ==> #[trigger] a[i] != '-',
        forall|i: int| 0 <= i < b.len() ==> #[trigger] b[i] != '-',
    ensures
        a == b,
        x == y,
{
    let s = a + seq!['-'] + x;
    let t = b + seq!['-'] + y;
    assert(s[a.len() as int] == '-');
    assert(t[b.len() as int] == '-');
    if a.len() < b.len() {
        assert(t[a.len() as int] == b[a.len() as int]);
    }
    if b.len() < a.len() {
        assert(s[b.len() as int] == a[b.len() as int]);
    }
    assert(a =~= s.take(a.len() as int));
    assert(b =~= t.take(b.len() as int));
    assert(x =~= s.skip((a.len() + 1) as int));
    assert(y =~= t.skip((b.len() + 1) as int));
}

/// Temporary files share a name only where process and count are the same.
pub proof fn temporary_names_are_distinct(
    pid: u32,
    count: u64,
    entropy: u64,
    other_pid: u32,
    other_count: u64,
    other_entropy: u64,
)
    requires
        crate::backend::file::temp_text(pid, count, entropy) == crate::backend::file::temp_text(
            other_pid,
            other_count,
            other_entropy,
        ),
    ensures
        pid == other_pid,
        count == other_count,
{
    reveal_strlit(".tmp-");
    reveal_strlit("-");
    let s = crate::backend::file::temp_text(pid, count, entropy);
    let t = crate::backend::file::temp_text(other_pid, other_count, other_entropy);
    let p = crate::text::decimal(pid as nat);
    let q = crate::text::decimal(other_pid as nat);
    let m = crate::text::decimal(count as nat);
    let n = crate::text::decimal(other_count as nat);
    let x = crate::backend::keyspace::hex(crate::backend::file::big_endian(entropy));
    let y = crate::backend::keyspace::hex(crate::backend::file::big_endian(other_entropy));
    assert(s.skip(5) =~= p + seq!['-'] + (m + seq!['-'] + x));
    assert(t.skip(5) =~= q + seq!['-'] + (n + seq!['-'] + y));
    lemma_decimal_has_no_dash(pid as nat);
    lemma_decimal_has_no_dash(other_pid as nat);
    lemma_decimal_has_no_dash(count as nat);
    lemma_decimal_has_no_dash(other_count as nat);
    lemma_split_at_dash(p, m + seq!['-'] + x, q, n + seq!['-'] + y);
    lemma_split_at_dash(m, x, n, y);
    lemma_decimal_is_faithful(pid as nat, other_pid as nat);
    lemma_decimal_is_faithful(count as nat, other_count as nat);
}

/// Each byte is written as two digits, the high half first; a digit is that of its value,
/// with small letters past nine.
pub proof fn hex_writes_two_digits_a_byte(bytes: Seq<u8>, i: int)
    requires
        0 <= i < bytes.len(),
    ensures
        crate::backend::keyspace::hex(bytes).len() == 2 * bytes.len(),
        ({
            let high = bytes[i] as int / 16;
            let low = bytes[i] as int % 16;
            let a = crate::backend::keyspace::hex(bytes)[2 * i];
            let b = crate::backend::keyspace::hex(bytes)[2 * i + 1];
            &&& a as int == if high < 10 {
                '0' as int + high
            } else {
                'a' as int + high - 10
            }
            &&& b as int == if low < 10 {
                '0' as int + low
            } else {
                'a' as int + low - 10
            }
        }),
    decreases bytes.len(),
{
    lemma_hex_len(bytes);
    lemma_hex_len(bytes.drop_last());
    let before = crate::backend::keyspace::hex(bytes.drop_last());
    let all = crate::backend::keyspace::hex(bytes);
    if i < bytes.len() - 1 {
        hex_writes_two_digits_a_byte(bytes.drop_last(), i);
        assert(all[2 * i] == before[2 * i]);
        assert(all[2 * i + 1] == before[2 * i + 1]);
    } else {
        assert(all[2 * i] == crate::backend::keyspace::hex_digit(bytes.last() as int / 16));
        assert(all[2 * i + 1] == crate::backend::keyspace::hex_digit(bytes.last() as int % 16));
    }
}

/// A file entry is expired from the millisecond of its expiry on, and never without one.
pub proof fn file_entries_expire_on_time(expiry: Option<u64>, now_ms: u64)
    ensures
        crate::backend::file::has_expired(expiry, now_ms) <==> match expiry {
            Some(ms) => now_ms >= ms,
            None => false,
        },
{
}

/// The milliseconds of a span are the whole ones in it: no later than it ends, and less than
/// one before that.
pub proof fn millis_are_the_whole_ones(span: int, ms: u64)
    requires
        0 <= span,
        crate::backend::file::is_millis(span, Ok(ms)),
    ensures
        ms * 1_000_000 <= span,
        span < (ms + 1) * 1_000_000,
{
}

/// What stands before the value of a file entry: a tag that says whether it expires, and
/// then the eight bytes of when it does, least significant first.
pub proof fn file_entries_start_with_their_expiry(expires_at_ms: Option<u64>, prefix: Seq<u8>)
    requires
        crate::backend::file::expiry_prefix(expires_at_ms, prefix),
    ensures
        prefix.len() == 9,
        prefix[0] == (if expires_at_ms is Some {
            1u8
        } else {
            0u8
        }),
        expires_at_ms matches Some(ms) ==> ms == prefix[1] + 256 * (prefix[2] + 256 * (prefix[3]
            + 256 * (prefix[4] + 256 * (prefix[5] + 256 * (prefix[6] + 256 * (prefix[7] + 256
            * prefix[8])))))),
{
    let bytes = prefix.skip(1);
    reveal_with_fuel(crate::wire::little_endian, 9);
    assert(bytes.drop_first().drop_first().drop_first().drop_first().drop_first().drop_first().drop_first().drop_first().len()
        == 0);
}

/// A key has the cell that was stored last under it, and none after that was dropped; other
/// keys are not touched.
pub proof fn stored_cells_are_found(
    m: Map<Seq<char>, (Seq<u8>, Option<u128>)>,
    key: Seq<char>,
    cell: (Seq<u8>, Option<u128>),
    other: Seq<char>,
)
    requires
        other != key,
    ensures
        crate::backend::memory::found(m.insert(key, cell), key) == Some(cell),
        crate::backend::memory::found(m.remove(key), key) is None,
        crate::backend::memory::found(m.insert(key, cell), other) == crate::backend::memory::found(
            m,
            other,
        ),
        crate::backend::memory::found(m.remove(key), other) == crate::backend::memory::found(
            m,
            other,
        ),
        crate::backend::memory::found(crate::backend::memory::no_cells(), key) is None,
{
}

} // verus!
