//! Control-channel core of a process supervisor.
//!
//! A controller process and a number of agent processes talk over one
//! line-oriented text channel. This crate holds the wire format of a line,
//! its decoder, and the handles through which the monitoring threads of the
//! controller and of the agents forward events to the supervisor. Beside
//! them stands the help text of the driver's command-line options.

pub mod handles;
pub mod laws;
pub mod message;
pub mod opts;
pub mod trusted;
pub mod wire;
