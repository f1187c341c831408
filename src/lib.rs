//! A single-node service-discovery and configuration control plane: an
//! instance registry with heartbeat health tracking, a configuration store
//! with an append-only version history and rollback, and a topic-based hub
//! that pushes change events to subscribers.

pub mod api;
pub mod client;
pub mod clock;
pub mod codec;
pub mod config_store;
pub mod history;
pub mod instances;
pub mod laws;
pub mod listing;
pub mod maps;
pub mod model;
pub mod namespaces;
pub mod notify;
pub mod order;
pub mod paging;
pub mod sweeper;
pub mod text;
pub mod usecase;
