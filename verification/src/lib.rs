//! A minimal OCI-style container runtime library.
//!
//! The library holds the verified core of the runtime: the container status
//! state machine, the persistent state record and its JSON encoding, the
//! signal-name table, the container handle with status refresh and signal
//! delivery, and the lifecycle command drivers.  Process creation (fork) and
//! terminal plumbing live outside the library, in the binary that drives it.

pub mod bootstrap;
pub mod commands;
pub mod container;
pub mod error;
pub mod json;
pub mod notify;
pub mod numfmt;
pub mod oci_config;
pub mod persist;
pub mod signal;
pub mod state_record;
pub mod status;
pub mod strutil;
pub mod sys;
