//! Host side of the management interface: framing, command line and the
//! acceptance harness.
pub mod cli;
pub mod framing;
pub mod harness;
pub mod lines;
pub mod transport;
