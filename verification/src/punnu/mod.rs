//! The pool and what surrounds it.

pub mod backend_write;
pub mod builder;
pub mod capacity;
pub mod config;
pub mod delta;
pub mod delta_refresh;
pub mod events;
pub mod eviction;
pub mod fetch;
pub mod fetch_commit;
pub mod laws;
pub mod model;
pub mod pool;
pub mod random;
pub mod recovery;
pub mod refresh;
pub mod scope;
pub mod single_flight;
pub mod snapshot;
pub mod state;
pub mod subscription_laws;
pub mod tenant;
pub mod write;
pub mod write_laws;
