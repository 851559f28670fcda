//! Decision core of a reciprocal health watchdog.
//!
//! Each node supervises one neighbour and pulses its reset line when the
//! neighbour stops answering, but only while the node can still see a quorum
//! of the wider universe of cooperating nodes.

pub mod address;
pub mod liveness;
pub mod machine;
pub mod quorum;
pub mod watchdog;
