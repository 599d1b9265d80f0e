//! Rust syntax trees.
pub mod ast;
