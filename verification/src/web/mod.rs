//! What the web pages show.
pub mod comment_formatter;
pub mod formatter_laws;
pub mod panel;
pub mod panel_laws;
pub mod state;
