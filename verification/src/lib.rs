//! Verified core of the audit platform.
pub mod api;
pub mod comments;
pub mod documentation;
pub mod domain;
pub mod feature_lookup;
pub mod ids;
pub mod lookup_laws;
pub mod ordered;
pub mod report;
pub mod resolution_graph;
pub mod rust;
pub mod solidity;
pub mod sorting;
pub mod text;
pub mod web;
