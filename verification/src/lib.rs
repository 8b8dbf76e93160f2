//! A text-driven modular synthesizer: the patch language, the signal graph
//! and the decisions of its modules.
//!
//! A patch declares modules and connects their ports, one statement per
//! line. The engine reads the lines and builds the graph; the graph plans
//! the work of each block of samples. Samples themselves are worked on
//! outside this library, which is told what it needs of them as booleans,
//! levels and counts.

pub mod buffers;
pub mod cli;
pub mod cycle;
pub mod embedded_stdlib;
pub mod expression;
pub mod graph;
pub mod graph_engine;
pub mod graph_modules;
pub mod listing;
pub mod module_loader;
pub mod module_resolver;
pub mod modules;
pub mod node;
pub mod number;
pub mod observability;
pub mod parser;
pub mod ports;
pub mod reading;
pub mod roundtrip;
pub mod sequencing;
pub mod shaping;
pub mod text;
pub mod validation;
