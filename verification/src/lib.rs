//! An in-memory store for a small graph editor: nodes with positions, edges
//! between them, and two counters that hand out identifiers.
//!
//! Every operation of the store is verified against a mathematical model of
//! the graph, [`model::GraphView`].

pub mod error;
pub mod position;
pub mod model;
pub mod filtering;
pub mod pairs;
pub mod random;
pub mod store;
pub mod laws;
pub mod generate;
