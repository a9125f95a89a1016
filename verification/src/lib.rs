//! A wall clock for a seventeen-digit display, kept right by a network time
//! server, and the animation that brings a fresh time onto the display.
//!
//! The library decides and computes; the program around it sends the
//! requests, sleeps and writes to the device.

pub mod acquire;
pub mod animation;
pub mod calendar;
pub mod convert;
pub mod date;
pub mod device;
pub mod leaps;
pub mod linear;
pub mod period;
pub mod rand;
pub mod schedule;
