//! Turns a network-scan report into a diagram: a state machine that rebuilds
//! host records from markup events, an aggregator of service tables, and a
//! layout engine that emits positioned diagram cells.

pub mod text;
pub mod events;
pub mod parser;
pub mod detail;
pub mod server;
pub mod topology;
pub mod renderer;
pub mod reader;
pub mod diagram;
