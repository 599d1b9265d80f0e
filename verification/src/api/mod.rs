//! What the interface reads and changes.
pub mod change_laws;
pub mod conversation;
pub mod entities;
pub mod reading;
pub mod reading_laws;
pub mod request_laws;
pub mod response_laws;
pub mod responses;
pub mod status;
pub mod threats;
pub mod writing;
