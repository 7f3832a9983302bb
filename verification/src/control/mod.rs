//! The control socket: its messages, how the server answers them, and what the
//! command line shows of the answers.
pub mod protocol;
pub mod server;
pub mod client;
pub mod laws;
pub mod client_laws;
