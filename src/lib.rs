//! A normalised snapshot of a host's hardware and operating-system identity,
//! with a stable ranking of the graphics adapters that picks the primary one.
pub mod device;
pub mod memory;
pub mod ranking;
pub mod report;
