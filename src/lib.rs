//! Query planning and batched loading over a declared entity graph.
//!
//! - `registry`: entity declarations, checked once and resolved to indices.
//! - `selection`: validates a nested field selection against the registry.
//! - `planner`: one query step per distinct nesting position of a selection.
//! - `loader`: runs the steps against storage and links child rows to parent rows.
//! - `mutation`: whole-row inserts and updates.
//! - `request`: a query request from selection to loaded rows and nested objects.
//! - `response`: the nested objects that mirror a selection.
//! - `schema`: the movie database's declarations and typed payloads.
use vstd::prelude::*;

pub mod loader;
pub mod mutation;
pub mod planner;
pub mod registry;
pub mod request;
pub mod response;
pub mod schema;
pub mod selection;
pub mod value;

verus! {

} // verus!
