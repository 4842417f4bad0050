//! Helpers shared by the request handlers.

pub mod guarantees;
pub mod identity;
pub mod mailbox;
pub mod multipart;
pub mod sse_thread;
