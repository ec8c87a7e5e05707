//! The proxy's request-handling pieces under the names the HTTP layer
//! uses for them.

pub use crate::proxy::context;
pub use crate::proxy::error;
pub use crate::proxy::header;
