//! Storage below the pools.

pub mod file;
pub mod keyspace;
pub mod laws;
pub mod memory;
pub mod no_backend;
pub mod policy;
