//! Modbus TCP slave (server) core: MBAP frame codec, PDU dispatch for the
//! standard read/write function codes, a strict-addressing register/coil
//! store synchronised with a typed variable catalog, stream reassembly for
//! per-connection handling, server lifecycle state, and telemetry records.
//!
//! All protocol logic lives here and is verified; socket handling and the
//! concurrency plumbing around the store live in the accompanying binary.

pub mod codec;
pub mod dispatch;
pub mod ieee;
pub mod server;
pub mod session;
pub mod store;
pub mod telemetry;
pub mod types;
