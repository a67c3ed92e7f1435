//! A light-level meter: turns the brightness of captured video frames into a
//! thermometer-style bar on a bank of GPIO-driven output pins, with an
//! optional shared hand-off of the latest frame to an independent preview
//! consumer.

pub mod device;
pub mod gpio;
pub mod level;
pub mod sampler;
pub mod session;
pub mod slot;
