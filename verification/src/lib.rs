//! Directed message-flow graphs: a data model for wiring independently
//! addressable processing units ("extensions") into a runnable composition,
//! together with a validation pipeline, a subgraph-flattening pass and a
//! read-only connection-resolution query.
//!
//! A graph declares, per extension, which outbound message categories it
//! emits (command, data, audio frame, video frame) and to which destination
//! extensions each named message flows. Before such a graph may be trusted
//! to run, a set of consistency rules must hold: unique extension identity,
//! resolvable destinations, schema-compatible flows and correctly flattened
//! subgraphs. Those rules, and the query that reports a graph's wiring, are
//! what this crate states and proves.

pub mod destinations;
pub mod errors;
pub mod expand;
pub mod model;
pub mod resolve;
pub mod schema;
pub mod uniqueness;
pub mod validate;
