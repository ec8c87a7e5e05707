//! The reverse proxy: header filtering, request context extraction, and
//! the errors it answers with.

pub mod context;
pub mod error;
pub mod header;
