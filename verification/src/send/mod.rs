//! Sending frames: the frame a user types, how often it is sent, and the
//! socketcan frame that is written.
pub mod live;
pub mod parse;
pub mod prompt;

pub use parse::SendFrame;
