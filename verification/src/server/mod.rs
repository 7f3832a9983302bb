//! Server daemon lifecycle: which sockets it serves on, how startup failures
//! are reported, and how it shuts down.
pub mod lifecycle;
pub mod listener;
pub mod laws;
