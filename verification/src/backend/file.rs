//! Entries of a file backend: where they are, and what is in them.

use vstd::prelude::*;
use vstd::slice::*;
use vstd::string::*;
use crate::backend::keyspace::{
    encode_hex,
    keyspace_storage_key,
    keyspace_storage_key_prefix,
    BackendKeyspace,
};
use crate::cacheable::Cacheable;
use crate::error::BackendError;
use crate::payload::WirePayload;
use crate::punnu::random::number_up_to;
use crate::text::push_decimal;
use crate::time::Duration;
use crate::wire::{
    decode_header,
    decode_postcard_exact,
    encode_header,
    push_little_endian,
    read_little_endian,
    WireKind,
};

verus! {

/// The tag of an entry that does not expire.
pub const EXPIRY_NONE: u8 = 0;

/// The tag of an entry that expires.
pub const EXPIRY_UNIX_MS: u8 = 1;

/// The length of what stands before the value.
pub const FILE_EXPIRY_PREFIX_LEN: usize = 9;

/// A backend that keeps one file for each entry, below a root directory.
#[derive(Debug, Clone)]
pub struct FileBackend {
    root: String,
}

impl FileBackend {
    /// The root directory.
    pub closed spec fn spec_root(&self) -> Seq<char> {
        self.root@
    }

    /// Makes a backend below `root`.
    pub fn new(root: &str) -> (r: Self)
        ensures
            r.spec_root() == root@,
    {
        FileBackend { root: root.to_owned() }
    }

    /// Returns the root directory.
    pub fn root(&self) -> (r: &str)
        ensures
            r@ == self.spec_root(),
    {
        self.root.as_str()
    }

    /// Where the file of an id is, below the root.
    pub fn data_path(&self, keyspace: &BackendKeyspace, id: &i64) -> (r: Result<
        String,
        BackendError,
    >)
        ensures
            r matches Ok(path) && path@ == crate::backend::keyspace::storage_key(*keyspace, *id)
                + ".sassi"@,
    {
        match keyspace_storage_key(keyspace, id) {
            Ok(key) => {
                let mut path = key;
                path.append(".sassi");
                Ok(path)
            },
            Err(err) => Err(err),
        }
    }

    /// Where the files of a keyspace are, below the root.
    pub fn keyspace_dir(&self, keyspace: &BackendKeyspace) -> (r: String)
        ensures
            r@ == crate::backend::keyspace::key_prefix(*keyspace),
    {
        keyspace_storage_key_prefix(keyspace)
    }
}

/// The name of a temporary file.
pub open spec fn temp_text(pid: u32, count: u64, entropy: u64) -> Seq<char> {
    ".tmp-"@ + crate::text::decimal(pid as nat) + "-"@ + crate::text::decimal(count as nat) + "-"@
        + crate::backend::keyspace::hex(big_endian(entropy))
}

/// The eight bytes of a number, most significant first.
pub open spec fn big_endian(n: u64) -> Seq<u8> {
    seq![
        (n / 0x100_0000_0000_0000) as u8,
        (n / 0x1_0000_0000_0000 % 256) as u8,
        (n / 0x100_0000_0000 % 256) as u8,
        (n / 0x1_0000_0000 % 256) as u8,
        (n / 0x100_0000 % 256) as u8,
        (n / 0x1_0000 % 256) as u8,
        (n / 0x100 % 256) as u8,
        (n % 256) as u8,
    ]
}

/// Makes the name of a temporary file of a process, a count and entropy.
pub fn temp_name(pid: u32, count: u64, entropy: u64) -> (r: String)
    ensures
        r@ == temp_text(pid, count, entropy),
{
    let mut bytes: Vec<u8> = Vec::new();
    bytes.push((entropy / 0x100_0000_0000_0000) as u8);
    bytes.push((entropy / 0x1_0000_0000_0000 % 256) as u8);
    bytes.push((entropy / 0x100_0000_0000 % 256) as u8);
    bytes.push((entropy / 0x1_0000_0000 % 256) as u8);
    bytes.push((entropy / 0x100_0000 % 256) as u8);
    bytes.push((entropy / 0x1_0000 % 256) as u8);
    bytes.push((entropy / 0x100 % 256) as u8);
    bytes.push((entropy % 256) as u8);
    assert(bytes@ =~= big_endian(entropy));
    let mut r = ".tmp-".to_owned();
    push_decimal(&mut r, pid as u64);
    r.append("-");
    push_decimal(&mut r, count);
    r.append("-");
    r.append(encode_hex(bytes.as_slice()).as_str());
    assert(r@ =~= temp_text(pid, count, entropy));
    r
}

/// Makes the name of a temporary file that other processes are unlikely to make.
pub fn temp_path(pid: u32, count: u64) -> (r: String)
    ensures
        exists|entropy: u64| r@ == #[trigger] temp_text(pid, count, entropy),
{
    let entropy = number_up_to(u64::MAX);
    temp_name(pid, count, entropy)
}

/// What stands before the value of an entry.
pub open spec fn expiry_prefix(expires_at_ms: Option<u64>, prefix: Seq<u8>) -> bool {
    &&& prefix.len() == FILE_EXPIRY_PREFIX_LEN
    &&& prefix[0] == (if expires_at_ms is Some {
        EXPIRY_UNIX_MS
    } else {
        EXPIRY_NONE
    })
    &&& crate::wire::is_little_endian(
        prefix.skip(1),
        match expires_at_ms {
            Some(ms) => ms as int,
            None => 0,
        },
        8,
    )
}

/// What is made of an encoded value and its expiry: the entry, or the error.
pub open spec fn framed_entry(
    label: Seq<char>,
    expires_at_ms: Option<u64>,
    encoded: Result<Seq<u8>, Seq<char>>,
    r: Result<Vec<u8>, BackendError>,
) -> bool {
    if vstd::utf8::encode_utf8(label).len() > u16::MAX {
        r matches Err(BackendError::WireFormat(crate::error::WireFormatError::MalformedHeader(text)))
            && text@ == "cache type name exceeds u16 length"@
    } else {
        match encoded {
            Ok(body) => r matches Ok(bytes) && exists|prefix: Seq<u8>| #[trigger]
                expiry_prefix(expires_at_ms, prefix) && bytes@ == crate::wire::header(
                    crate::wire::KIND_FILE_ENTRY,
                    label,
                ) + prefix + body,
            Err(said) => r matches Err(BackendError::Serialization(text)) && text@ == said,
        }
    }
}

/// Makes an entry of an encoded value and its expiry.
pub fn frame_entry<T: Cacheable>(
    expires_at_ms: Option<u64>,
    encoded: Result<Vec<u8>, String>,
) -> (r: Result<Vec<u8>, BackendError>)
    ensures
        framed_entry(T::spec_type_label(), expires_at_ms, crate::wire::seen_bytes(encoded), r),
{
    let mut out: Vec<u8> = Vec::new();
    match encode_header::<T>(WireKind::FileEntry, &mut out) {
        Err(err) => {
            return Err(BackendError::WireFormat(err));
        },
        Ok(()) => {},
    }
    let ghost head = out@;
    assert(head =~= crate::wire::header(crate::wire::KIND_FILE_ENTRY, T::spec_type_label()));
    let (tag, ms) = match expires_at_ms {
        Some(ms) => (EXPIRY_UNIX_MS, ms),
        None => (EXPIRY_NONE, 0),
    };
    out.push(tag);
    let ghost tagged = out@;
    push_little_endian(&mut out, ms, 8);
    let ghost prefix = out@.skip(head.len() as int);
    proof {
        assert(out@.take(tagged.len() as int) == tagged);
        assert(out@ =~= tagged + out@.skip(tagged.len() as int));
        assert(prefix.skip(1) =~= out@.skip(tagged.len() as int));
        assert(prefix[0] == out@.take(tagged.len() as int)[head.len() as int]);
        assert(out@ =~= head + prefix);
        assert(expiry_prefix(expires_at_ms, prefix));
    }
    match encoded {
        Ok(body) => {
            out.extend_from_slice(body.as_slice());
            assert(out@ =~= head + prefix + body@);
            Ok(out)
        },
        Err(said) => Err(BackendError::Serialization(said)),
    }
}

/// Makes an entry of a value and its expiry.
pub fn file_wire_to_vec<T: Cacheable + WirePayload>(payload: &T, expires_at_ms: Option<u64>) -> (r:
    Result<Vec<u8>, BackendError>)
    ensures
        exists|encoded: Result<Seq<u8>, Seq<char>>| #[trigger]
            payload.may_encode(encoded) && framed_entry(
                T::spec_type_label(),
                expires_at_ms,
                encoded,
                r,
            ),
{
    let encoded = payload.encode();
    assert(payload.may_encode(crate::wire::seen_bytes(encoded)));
    frame_entry::<T>(expires_at_ms, encoded)
}

/// What the body of an entry says before its value: when it expires, or the error.
pub open spec fn expiry_of(body: Seq<u8>, r: Result<Option<u64>, BackendError>) -> bool {
    if body.len() < FILE_EXPIRY_PREFIX_LEN {
        r matches Err(BackendError::Serialization(text)) && text@ == "file entry body too short"@
    } else if body[0] == EXPIRY_NONE {
        r == Ok::<Option<u64>, BackendError>(None)
    } else if body[0] == EXPIRY_UNIX_MS {
        r == Ok::<Option<u64>, BackendError>(
            Some(crate::wire::little_endian(body.subrange(1, 9)) as u64),
        )
    } else {
        r matches Err(BackendError::Serialization(text)) && text@ == "unsupported file expiry tag "@
            + crate::text::decimal(body[0] as nat)
    }
}

/// Reads when an entry expires.
pub fn read_expiry(body: &[u8]) -> (r: Result<Option<u64>, BackendError>)
    ensures
        expiry_of(body@, r),
{
    if body.len() < FILE_EXPIRY_PREFIX_LEN {
        return Err(BackendError::Serialization("file entry body too short".to_owned()));
    }
    let tag = body[0];
    let ms = read_little_endian(body, 1, 8);
    if tag == EXPIRY_NONE {
        Ok(None)
    } else if tag == EXPIRY_UNIX_MS {
        Ok(Some(ms))
    } else {
        let mut text = "unsupported file expiry tag ".to_owned();
        push_decimal(&mut text, tag as u64);
        Err(BackendError::Serialization(text))
    }
}

/// Whether the entry has expired at `now_ms`.
pub open spec fn has_expired(expiry: Option<u64>, now_ms: u64) -> bool {
    expiry matches Some(ms) && ms <= now_ms
}

/// Whether reading an entry at `now_ms` may give this: when it expires, and its value
/// where it has not.
pub open spec fn may_read_entry<T: Cacheable + WirePayload>(
    bytes: Seq<u8>,
    now_ms: u64,
    r: Result<(Option<u64>, Option<T>), BackendError>,
) -> bool {
    ||| exists|body: &[u8]| #[trigger]
        crate::wire::body_of(
            bytes,
            crate::wire::KIND_FILE_ENTRY,
            T::spec_type_label(),
            Ok(body),
        ) && may_read_body(body@, now_ms, r)
    ||| r matches Err(BackendError::WireFormat(err)) && crate::wire::body_of(
        bytes,
        crate::wire::KIND_FILE_ENTRY,
        T::spec_type_label(),
        Err(err),
    )
}

/// Whether reading the body of an entry at `now_ms` may give this.
pub open spec fn may_read_body<T: WirePayload>(
    body: Seq<u8>,
    now_ms: u64,
    r: Result<(Option<u64>, Option<T>), BackendError>,
) -> bool {
    match r {
        Ok((expiry, None)) => expiry_of(body, Ok(expiry)) && has_expired(expiry, now_ms),
        Ok((expiry, Some(value))) => expiry_of(body, Ok(expiry)) && !has_expired(expiry, now_ms)
            && crate::wire::may_read_exactly::<T>(body.skip(9), Ok(value)),
        Err(err) => expiry_of(body, Err(err)) || (err matches BackendError::WireFormat(e)
            && expiry_is_open(body, now_ms) && crate::wire::may_read_exactly::<T>(
            body.skip(9),
            Err(e),
        )),
    }
}

/// The body says that the entry has not expired at `now_ms`.
pub open spec fn expiry_is_open(body: Seq<u8>, now_ms: u64) -> bool {
    exists|expiry: Option<u64>| #[trigger]
        expiry_of(body, Ok(expiry)) && !has_expired(expiry, now_ms)
}

/// Reads the body of an entry at `now_ms`.
fn read_body<T: WirePayload>(body: &[u8], now_ms: u64) -> (r: Result<
    (Option<u64>, Option<T>),
    BackendError,
>)
    ensures
        may_read_body(body@, now_ms, r),
{
    let expiry = match read_expiry(body) {
        Ok(expiry) => expiry,
        Err(err) => {
            return Err(err);
        },
    };
    assert(expiry_of(body@, Ok(expiry)));
    match expiry {
        Some(ms) => {
            if ms <= now_ms {
                return Ok((expiry, None));
            }
        },
        None => {},
    }
    let rest = slice_subrange(body, FILE_EXPIRY_PREFIX_LEN, body.len());
    assert(rest@ =~= body@.skip(9));
    match decode_postcard_exact::<T>(rest) {
        Ok(value) => Ok((expiry, Some(value))),
        Err(err) => Err(BackendError::WireFormat(err)),
    }
}

/// Reads an entry at `now_ms`.
pub fn file_wire_from_slice<T: Cacheable + WirePayload>(bytes: &[u8], now_ms: u64) -> (r: Result<
    (Option<u64>, Option<T>),
    BackendError,
>)
    ensures
        may_read_entry(bytes@, now_ms, r),
{
    let ghost label = T::spec_type_label();
    match decode_header::<T>(bytes, WireKind::FileEntry) {
        Err(err) => {
            let ghost said = err;
            let r: Result<(Option<u64>, Option<T>), BackendError> = Err(
                BackendError::WireFormat(err),
            );
            assert(crate::wire::body_of(
                bytes@,
                crate::wire::KIND_FILE_ENTRY,
                label,
                Err(said),
            ));
            r
        },
        Ok(body) => {
            assert(crate::wire::body_of(bytes@, crate::wire::KIND_FILE_ENTRY, label, Ok(body)));
            read_body(body, now_ms)
        },
    }
}

/// The milliseconds of a span, where they fit.
pub open spec fn is_millis(span: int, r: Result<u64, BackendError>) -> bool {
    if span / 1_000_000 <= u64::MAX {
        r == Ok::<u64, BackendError>((span / 1_000_000) as u64)
    } else {
        r matches Err(BackendError::Serialization(text)) && text@
            == "file expiry exceeds u64 milliseconds"@
    }
}

/// When an entry that is written at `since_epoch` expires, in milliseconds since the
/// epoch.
pub fn absolute_expiry_millis(since_epoch: Duration, ttl: Duration) -> (r: Result<
    u64,
    BackendError,
>)
    ensures
        is_millis(since_epoch + ttl, r),
{
    match since_epoch.checked_add(ttl) {
        Some(deadline) => now_millis(deadline),
        None => {
            proof {
                assert(u128::MAX / 1_000_000 > u64::MAX);
            }
            Err(BackendError::Serialization("file expiry exceeds u64 milliseconds".to_owned()))
        },
    }
}

/// The time in milliseconds since the epoch.
pub fn now_millis(since_epoch: Duration) -> (r: Result<u64, BackendError>)
    ensures
        is_millis(since_epoch as int, r),
{
    let ms = since_epoch / 1_000_000;
    if ms <= u64::MAX as u128 {
        Ok(ms as u64)
    } else {
        Err(BackendError::Serialization("file expiry exceeds u64 milliseconds".to_owned()))
    }
}

} // verus!
