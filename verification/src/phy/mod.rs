//! Timing, buffering and error handling between the radio device and the modem.
pub mod counters;
pub mod receiver;
pub mod rxtx_dev;
pub mod setup;
pub mod soapyio;
pub mod timeslot;
pub mod transmitter;
