//! Tunnels: who may register which hostname, how visitor requests are
//! forwarded, and how each exchange is paced.
pub mod identity;
pub mod registry;
pub mod proxy;
pub mod exchange;
pub mod relay;
pub mod laws;
