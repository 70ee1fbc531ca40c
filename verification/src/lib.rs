//! Verified core of a TETRA base station.
pub mod cmce;
pub mod dashboard;
pub mod messagerouter;
pub mod number;
pub mod observer;
pub mod phy;
pub mod service_control;
pub mod tdma;
pub mod text;
pub mod umac;
