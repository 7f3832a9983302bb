//! Host setup: preflight checks, DNS and reachability verification, planning,
//! installation and uninstallation.
pub mod planner;
pub mod dns;
pub mod preflight;
pub mod units;
pub mod reachability;
pub mod interactive;
pub mod privilege;
pub mod uninstall;
pub mod note;
pub mod install;
pub mod verify;
pub mod gather;
pub mod flow;
pub mod laws;
pub mod install_laws;
