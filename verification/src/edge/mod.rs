//! The public HTTP edge: which host a request is for, whether it is let
//! through, and what it is answered.
pub mod escapes;
pub mod sight;
pub mod waf;
pub mod host;
pub mod cleartext;
pub mod https;
pub mod tls;
pub mod laws;
