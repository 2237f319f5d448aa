//! Bring-up core of a small wireless device.
//!
//! The device starts a radio driver and an IP stack as background tasks,
//! joins an access point, waits for an address and makes one request over
//! TLS. This crate holds the decisions of that sequence as state machines
//! that do no I/O themselves: a caller performs each action they name and
//! hands back what came of it.

pub mod config;
pub mod net;
pub mod supervisor;
pub mod buffer;
pub mod request;
pub mod probe;
