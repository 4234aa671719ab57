//! Predicates on cached values.

pub mod basic;
pub mod field_ext;
pub mod field_laws;
pub mod field_predicate;
pub mod field_value;
pub mod jsahibon;
pub mod json_laws;
pub mod json_path;
pub mod memq;
pub mod memq_laws;
pub mod operand;
pub mod query_key;
pub mod stable_order;
