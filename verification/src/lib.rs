//! Verified core of a desktop agent that bridges an OSC control protocol
//! to a set of independently toggleable plugins.
//!
//! The library holds the logic worth proving: the discovery address tree,
//! the plugin lifecycle state machine, the supervision model, the message
//! bus semantics and the debounced persistence queue.  I/O, the GUI and the
//! async runtime live outside, in a thin unverified shell that calls into
//! these verified functions.

pub mod bus;
pub mod config;
pub mod errors;
pub mod lifecycle;
pub mod monitor;
pub mod node;
pub mod paths;
pub mod persist;
pub mod pishock;
pub mod platform;
pub mod plugins;
pub mod service;
pub mod supervision;
pub mod tasks;
