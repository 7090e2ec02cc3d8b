//! In-memory bridge between a telemetry stream, a serial command channel and a
//! query interface.
//!
//! The crate holds the decisions of such a bridge as verified functions on plain
//! values: how a telemetry record is cut into fields and turned into a sample,
//! what the store keeps, and what the command relay does with its one handle.
//! Sockets, the serial device and the request router belong to the program that
//! uses the crate.
pub mod ingest;
pub mod relay;
pub mod reply;
pub mod sample;
pub mod session;
pub mod store;
pub mod wire;
