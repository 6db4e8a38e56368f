//! Audio building blocks: strongly typed integer quantities and a multi-channel
//! sample buffer whose layout and operations are specified and verified.

pub mod buffer;
pub mod units;
