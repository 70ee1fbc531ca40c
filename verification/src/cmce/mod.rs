//! Circuit mode control entity.
pub mod pre_coded_status;
pub mod tpi;
