//! Errors of the library, and what each of them says.

use vstd::prelude::*;
use vstd::string::*;
use crate::text::{join2, push_decimal};

verus! {

/// Errors of the binary wire container.
#[non_exhaustive]
#[allow(inconsistent_fields)]
#[derive(Debug, Clone)]
pub enum WireFormatError {
    /// The wire major is not understood.
    VersionMismatch {
        /// Major version found in the header.
        got: u16,
        /// Major version that can be read.
        expected: u16,
    },
    /// The bytes do not start with the wire magic.
    InvalidMagic,
    /// The bytes are of another wire kind.
    KindMismatch {
        /// Kind byte found in the header.
        got: u8,
        /// Kind byte that the decode path takes.
        expected: u8,
    },
    /// The bytes are of a reserved wire kind.
    UnsupportedKind {
        /// Kind byte found in the header.
        kind: u8,
    },
    /// The header sets flags that are not understood.
    UnsupportedFlags {
        /// Flags byte found in the header.
        flags: u8,
    },
    /// The header names another cached type.
    TypeNameMismatch {
        /// Type name found in the header.
        got: String,
        /// Type name that the decode path takes.
        expected: String,
    },
    /// The fixed header or the type name is malformed.
    MalformedHeader(String),
    /// The body failed to encode or decode.
    Codec(String),
}

/// Errors from a cache backend.
#[non_exhaustive]
#[derive(Debug, Clone)]
pub enum BackendError {
    /// The backend has no such entry.
    NotFound,
    /// A payload could not be encoded or decoded.
    Serialization(String),
    /// A wire-container error.
    WireFormat(WireFormatError),
    /// A transport error.
    Network(String),
    /// Anything else, rendered.
    Other(String),
}

/// Why an insert failed.
#[non_exhaustive]
#[derive(Debug, Clone)]
pub enum InsertError {
    /// The pool rejects conflicts and the id is already cached.
    Conflict,
    /// The payload could not be encoded for the backend.
    Serialization(String),
    /// The backend write failed.
    BackendFailed(BackendError),
    /// A wire-container error.
    WireFormat(WireFormatError),
}

/// Why a snapshot of entries was not restored.
#[non_exhaustive]
#[derive(Debug, Clone)]
pub enum PunnuSnapshotError {
    /// The snapshot could not be decoded for the cached type.
    WireFormat(WireFormatError),
    /// An id occurs more than once.
    DuplicateId,
    /// The snapshot does not fit into the pool.
    TooManyEntries {
        /// How many entries the snapshot has.
        entries: usize,
        /// How many entries the pool holds at most.
        limit: usize,
    },
    /// A strict backend write is under way.
    BackendWriteInFlight {
        /// How many strict backend writes are under way.
        reserved: usize,
    },
}

/// Why a fetch failed.
#[non_exhaustive]
#[derive(Debug, Clone)]
pub enum FetchError {
    /// The backend failed.
    Backend(BackendError),
    /// A fetched payload could not be encoded or decoded.
    Serialization(String),
    /// The fetcher panicked.
    FetcherPanic {
        /// Name of the cached type.
        cached_type: String,
        /// What the panic said.
        message: String,
    },
    /// The fetcher returned a value of another id.
    IdentityMismatch {
        /// Name of the cached type.
        cached_type: String,
    },
    /// The fetcher's own error, rendered.
    Custom(String),
    /// The fetched value could not be inserted.
    Insert(InsertError),
}

impl WireFormatError {
    /// What the error says.
    pub open spec fn message(&self) -> Seq<char> {
        match self {
            WireFormatError::VersionMismatch { got, expected } =>
                "wire format major version mismatch: got "@ + crate::text::decimal(*got as nat)
                    + ", expected "@ + crate::text::decimal(*expected as nat),
            WireFormatError::InvalidMagic => "wire format has invalid magic header"@,
            WireFormatError::KindMismatch { got, expected } => "wire format kind mismatch: got "@
                + crate::text::decimal(*got as nat) + ", expected "@ + crate::text::decimal(
                *expected as nat,
            ),
            WireFormatError::UnsupportedKind { kind } =>
                "wire format kind is reserved or unsupported: "@ + crate::text::decimal(
                *kind as nat,
            ),
            WireFormatError::UnsupportedFlags { flags } => "wire format flags are unsupported: "@
                + crate::text::decimal(*flags as nat),
            WireFormatError::TypeNameMismatch { got, expected } =>
                "wire format type mismatch: got "@ + got@ + ", expected "@ + expected@,
            WireFormatError::MalformedHeader(detail) => "wire header is malformed: "@ + detail@,
            WireFormatError::Codec(detail) => "wire body codec error: "@ + detail@,
        }
    }

    /// Renders the error.
    pub fn to_text(&self) -> (r: String)
        ensures
            r@ == self.message(),
    {
        let r = match self {
            WireFormatError::VersionMismatch { got, expected } => {
                let mut r = String::new();
                r.append("wire format major version mismatch: got ");
                push_decimal(&mut r, *got as u64);
                r.append(", expected ");
                push_decimal(&mut r, *expected as u64);
                r
            },
            WireFormatError::InvalidMagic => join2("wire format has invalid magic header", ""),
            WireFormatError::KindMismatch { got, expected } => {
                let mut r = String::new();
                r.append("wire format kind mismatch: got ");
                push_decimal(&mut r, *got as u64);
                r.append(", expected ");
                push_decimal(&mut r, *expected as u64);
                r
            },
            WireFormatError::UnsupportedKind { kind } => {
                let mut r = String::new();
                r.append("wire format kind is reserved or unsupported: ");
                push_decimal(&mut r, *kind as u64);
                r
            },
            WireFormatError::UnsupportedFlags { flags } => {
                let mut r = String::new();
                r.append("wire format flags are unsupported: ");
                push_decimal(&mut r, *flags as u64);
                r
            },
            WireFormatError::TypeNameMismatch { got, expected } => {
                let mut r = String::new();
                r.append("wire format type mismatch: got ");
                r.append(got.as_str());
                r.append(", expected ");
                r.append(expected.as_str());
                r
            },
            WireFormatError::MalformedHeader(detail) => join2(
                "wire header is malformed: ",
                detail.as_str(),
            ),
            WireFormatError::Codec(detail) => join2("wire body codec error: ", detail.as_str()),
        };
        proof {
            reveal_strlit("");
        }
        assert(r@ =~= self.message());
        r
    }
}

impl BackendError {
    /// What the error says.
    pub open spec fn message(&self) -> Seq<char> {
        match self {
            BackendError::NotFound => "backend reports entry not found"@,
            BackendError::Serialization(detail) => "backend serialization error: "@ + detail@,
            BackendError::WireFormat(e) => "backend wire-format error: "@ + e.message(),
            BackendError::Network(detail) => "backend network error: "@ + detail@,
            BackendError::Other(detail) => "backend error: "@ + detail@,
        }
    }

    /// Renders the error.
    pub fn to_text(&self) -> (r: String)
        ensures
            r@ == self.message(),
    {
        let r = match self {
            BackendError::NotFound => join2("backend reports entry not found", ""),
            BackendError::Serialization(detail) => join2(
                "backend serialization error: ",
                detail.as_str(),
            ),
            BackendError::WireFormat(e) => join2(
                "backend wire-format error: ",
                e.to_text().as_str(),
            ),
            BackendError::Network(detail) => join2("backend network error: ", detail.as_str()),
            BackendError::Other(detail) => join2("backend error: ", detail.as_str()),
        };
        proof {
            reveal_strlit("");
        }
        assert(r@ =~= self.message());
        r
    }
}

impl InsertError {
    /// What the error says.
    pub open spec fn message(&self) -> Seq<char> {
        match self {
            InsertError::Conflict =>
                "entry conflict — OnConflict::Reject configured and id is already cached"@,
            InsertError::Serialization(detail) => "serialization failed during insert: "@ + detail@,
            InsertError::BackendFailed(e) => "backend write-through failed: "@ + e.message(),
            InsertError::WireFormat(e) => "wire-format error: "@ + e.message(),
        }
    }

    /// Renders the error.
    pub fn to_text(&self) -> (r: String)
        ensures
            r@ == self.message(),
    {
        let r = match self {
            InsertError::Conflict => join2(
                "entry conflict — OnConflict::Reject configured and id is already cached",
                "",
            ),
            InsertError::Serialization(detail) => join2(
                "serialization failed during insert: ",
                detail.as_str(),
            ),
            InsertError::BackendFailed(e) => join2(
                "backend write-through failed: ",
                e.to_text().as_str(),
            ),
            InsertError::WireFormat(e) => join2("wire-format error: ", e.to_text().as_str()),
        };
        proof {
            reveal_strlit("");
        }
        assert(r@ =~= self.message());
        r
    }
}

impl PunnuSnapshotError {
    /// What the error says.
    pub open spec fn message(&self) -> Seq<char> {
        match self {
            PunnuSnapshotError::WireFormat(e) => "punnu snapshot wire-format error: "@
                + e.message(),
            PunnuSnapshotError::DuplicateId => "punnu snapshot contains duplicate id"@,
            PunnuSnapshotError::TooManyEntries { entries, limit } => "punnu snapshot contains "@
                + crate::text::decimal(*entries as nat)
                + " entries but this pool allows at most "@ + crate::text::decimal(*limit as nat),
            PunnuSnapshotError::BackendWriteInFlight { reserved } =>
                "punnu snapshot restore cannot run while "@ + crate::text::decimal(*reserved as nat)
                    + " strict backend write(s) are in flight"@,
        }
    }

    /// Renders the error.
    pub fn to_text(&self) -> (r: String)
        ensures
            r@ == self.message(),
    {
        let r = match self {
            PunnuSnapshotError::WireFormat(e) => join2(
                "punnu snapshot wire-format error: ",
                e.to_text().as_str(),
            ),
            PunnuSnapshotError::DuplicateId => join2("punnu snapshot contains duplicate id", ""),
            PunnuSnapshotError::TooManyEntries { entries, limit } => {
                let mut r = String::new();
                r.append("punnu snapshot contains ");
                push_decimal(&mut r, *entries as u64);
                r.append(" entries but this pool allows at most ");
                push_decimal(&mut r, *limit as u64);
                r
            },
            PunnuSnapshotError::BackendWriteInFlight { reserved } => {
                let mut r = String::new();
                r.append("punnu snapshot restore cannot run while ");
                push_decimal(&mut r, *reserved as u64);
                r.append(" strict backend write(s) are in flight");
                r
            },
        };
        proof {
            reveal_strlit("");
        }
        assert(r@ =~= self.message());
        r
    }
}

impl FetchError {
    /// What the error says.
    pub open spec fn message(&self) -> Seq<char> {
        match self {
            FetchError::Backend(e) => "backend operation failed during fetch: "@ + e.message(),
            FetchError::Serialization(detail) => "fetch serialization error: "@ + detail@,
            FetchError::FetcherPanic { cached_type, message } => "fetcher panicked while resolving "@
                + cached_type@ + ": "@ + message@,
            FetchError::IdentityMismatch { cached_type } =>
                "fetcher returned a value whose id did not match the requested id for "@
                    + cached_type@,
            FetchError::Custom(detail) => "fetcher error: "@ + detail@,
            FetchError::Insert(e) => "L1 insert failed during fetch: "@ + e.message(),
        }
    }

    /// Renders the error.
    pub fn to_text(&self) -> (r: String)
        ensures
            r@ == self.message(),
    {
        let r = match self {
            FetchError::Backend(e) => join2(
                "backend operation failed during fetch: ",
                e.to_text().as_str(),
            ),
            FetchError::Serialization(detail) => join2(
                "fetch serialization error: ",
                detail.as_str(),
            ),
            FetchError::FetcherPanic { cached_type, message } => {
                let mut r = String::new();
                r.append("fetcher panicked while resolving ");
                r.append(cached_type.as_str());
                r.append(": ");
                r.append(message.as_str());
                r
            },
            FetchError::IdentityMismatch { cached_type } => join2(
                "fetcher returned a value whose id did not match the requested id for ",
                cached_type.as_str(),
            ),
            FetchError::Custom(detail) => join2("fetcher error: ", detail.as_str()),
            FetchError::Insert(e) => join2("L1 insert failed during fetch: ", e.to_text().as_str()),
        };
        assert(r@ =~= self.message());
        r
    }
}

} // verus!
