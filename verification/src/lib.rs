//! Typed in-memory pools of shared values, with predicates, queries, refresh and
//! storage below them.

pub mod backend;
pub mod cacheable;
pub mod error;
pub mod ids;
pub mod jsahibon;
pub mod json;
pub mod payload;
pub mod portable;
pub mod predicate;
pub mod punnu;
pub mod sassi;
pub mod text;
pub mod text_bytes;
pub mod time;
pub mod version;
pub mod watermark;
pub mod wire;
pub mod wire_laws;

pub use backend::file::FileBackend;
pub use backend::keyspace::{BackendInvalidation, BackendKeyspace};
pub use backend::memory::MemoryBackend;
pub use backend::no_backend::NoBackend;
pub use cacheable::{Cacheable, Field};
pub use error::{BackendError, FetchError, InsertError, PunnuSnapshotError, WireFormatError};
pub use jsahibon::{JFiniteF64, JObject, JSahibON, JSahibONError};
pub use predicate::basic::BasicPredicate;
pub use predicate::field_ext::PresentField;
pub use predicate::field_predicate::{FieldPredicate, LookupOp};
pub use predicate::jsahibon::{
    evaluate_jsahibon_predicate,
    JCompareOp,
    JInPolarity,
    JOrderedScalar,
    JSahibONFieldRef,
    JSahibONOptionFieldRef,
    JSahibONPathRef,
    JSahibONPredicateBody,
    JSahibONValueRef,
    JScalar,
    JScalarKind,
    JScalarValue,
    JTypeKind,
};
pub use predicate::json_path::JPath;
pub use predicate::memq::MemQ;
pub use predicate::operand::{FieldValue, Operand, OperandValue};
pub use punnu::builder::PunnuBuilder;
pub use punnu::config::{BackendFailureMode, CacheTier, OnConflict, PunnuConfig, PunnuMetrics};
pub use punnu::delta::{DeltaApplyStats, DeltaResult};
pub use punnu::delta_refresh::{DeltaQuery, UpdateResult};
pub use punnu::events::{EventReason, InvalidationReason, PunnuEvent};
pub use punnu::pool::Punnu;
pub use punnu::refresh::RefreshMode;
pub use punnu::scope::PunnuScope;
pub use punnu::tenant::TenantKey;
pub use self::sassi::orchestrator::Sassi;
pub use time::Instant;
pub use version::version;
pub use watermark::{DeltaSyncCacheable, MonotonicWatermark};
