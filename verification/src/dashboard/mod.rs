//! The dashboard of the station.
pub mod change;
pub mod command;
pub mod config;
pub mod http;
pub mod json;
pub mod server;
pub mod telemetry;
