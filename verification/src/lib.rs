//! The decision core of a tunnel relay server: everything the server decides
//! or computes, with its contract, apart from the sockets, files and tasks it
//! runs on.
use vstd::prelude::*;

pub mod assets;
pub mod cert;
pub mod cli;
pub mod config;
pub mod control;
pub mod digest;
pub mod edge;
pub mod json;
pub mod laws;
pub mod names;
pub mod net;
pub mod notify;
pub mod number;
pub mod server;
pub mod setup;
pub mod store;
pub mod text;
pub mod tunnel;

verus! {

} // verus!
