//! Naming and selection rules for a tool that sends activity recordings to a
//! device-changing service and stores the corrected copies.

pub mod naming;
pub mod paths;
pub mod request;
pub mod run;
pub mod selection;
pub mod text;
