//! Application state (also reachable as `server::AppState`).

pub use crate::server::AppState;
