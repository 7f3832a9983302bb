//! Certificate management: clocks, calendar dates, renewal policy, providers,
//! challenges, the TLS resolver and the manager that ties them together.
pub mod acme;
pub mod challenge;
pub mod clock;
pub mod der;
pub mod keys;
pub mod manager;
pub mod order;
pub mod order_laws;
pub mod pem;
pub mod providers;
pub mod renewal;
pub mod resolver;
pub mod state;
pub mod validity;
pub mod laws;
