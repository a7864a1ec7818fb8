//! The state machines behind the terminal interface: the main menu, the
//! set-up wizard and the live dump. Drawing, keyboard input, sockets and
//! commands are the caller's; these types decide what each key does.
pub mod draft;
pub mod setup_flow;
pub mod dump_flow;
pub mod app;
