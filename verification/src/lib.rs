//! The processing logic of an envoy external processor that records HTTP
//! exchanges and batches them for the Moesif API, with its contracts.

use vstd::prelude::*;

pub mod text;
pub mod map;
pub mod external;
pub mod proto;
pub mod event;
pub mod headers;
pub mod config;
pub mod rules;
pub mod update_manager;
pub mod http_callback;
pub mod root_context;
pub mod processing;
pub mod http_context;
pub mod inspector;
pub mod placeholders;

verus! {
} // verus!
