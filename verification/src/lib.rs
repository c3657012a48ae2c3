//! Coverage-graph decode-merge-aggregate engine.
//!
//! The crate decodes compiler-emitted coverage notes and counter streams,
//! reconstructs per-function control-flow graphs, merges execution counters
//! across profiling runs, infers counts for uninstrumented arcs by flow
//! conservation, and aggregates per-line / per-function / per-file statistics.

pub mod aggregate;
pub mod argparse;
pub mod error;
pub mod infer;
pub mod interner;
pub mod graph;
pub mod merge;
pub mod reader;
pub mod session;
pub mod sourcepath;
pub mod utils;
