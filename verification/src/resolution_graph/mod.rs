//! The typed weighted graph over declarations that resolves ambiguous
//! references.
pub mod builder;
pub mod coloc;
pub mod coloc_laws;
pub mod edge;
pub mod graph;
pub mod graph_laws;
pub mod links;
pub mod pagerank;
pub mod rank_laws;
pub mod rust_extractor;
pub mod solidity_extractor;
pub mod trace;

pub use builder::{build, Extractor};
pub use edge::{Direction, EdgeType};
pub use graph::{OutEdge, ResolutionGraph};
pub use rust_extractor::RustExtractor;
pub use solidity_extractor::SolidityExtractor;
