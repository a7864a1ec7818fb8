//! A library for working with Linux SocketCAN interfaces: CAN frame text
//! rendering and parsing, dump filters, interface set-up planning, and the
//! state machines of the interactive terminal interface.
use vstd::prelude::*;

pub mod colors;
pub mod dump;
pub mod send;
pub mod setup;
pub mod text;
pub mod ui;

verus! {
} // verus!
