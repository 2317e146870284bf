//! Typed records, response decoding and message aggregation for a
//! project-management REST API.

pub mod aggregation;
pub mod client;
pub mod deserializers;
pub mod error;
pub mod json;
pub mod laws;
pub mod messages;
pub mod model;
pub mod query;
pub mod time;
