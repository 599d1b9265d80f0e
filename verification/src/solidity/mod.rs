//! Solidity syntax trees.
pub mod ast;
pub mod delimiter;
pub mod node_laws;
pub mod vocabulary;
