//! Discovery and timing of TLS-protected HTTP requests from probe events.
//!
//! Probes report library opens and TLS calls as fixed-size records.  This
//! crate holds the rules that turn those records into per-request timing
//! records and into decisions on which library files to probe.
pub mod cleanup;
pub mod event;
pub mod probe;
pub mod text;
pub mod http1;
pub mod frame;
pub mod handle;
pub mod table;
pub mod mounts;
pub mod discovery;
pub mod interpreter;
pub mod kernel;
