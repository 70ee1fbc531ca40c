//! Upper MAC.
pub mod circuit_mgr;
