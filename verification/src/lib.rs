//! Event-driven graph library: events are the only source of truth, and
//! graphs are read-only projections folded from event streams.

pub mod error;
pub mod ids;
pub mod json;
pub mod strmap;
pub mod text;
pub mod events;
pub mod graph_core;
pub mod functors;

pub use error::{GraphError, Result};
