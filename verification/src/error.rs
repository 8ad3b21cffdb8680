//! The runtime's error kinds.

use vstd::prelude::*;

use crate::status::ContainerStatus;

verus! {

/// Everything a lifecycle command can fail with.
#[derive(Debug, Clone, PartialEq, Eq)]
pub enum RuntimeError {
    /// The state directory for the given id is missing.
    NotFound,
    /// `create` found the state directory already there.
    AlreadyExists,
    /// A command's status precondition failed: what it needed, what it saw.
    InvalidStatus(ContainerStatus, ContainerStatus),
    /// `kill` got a name that is no signal.
    InvalidSignal(String),
    /// The bundle configuration could not be read or understood.
    Spec(String),
    /// A system call failed: the errno.
    Syscall(i32),
    /// State persistence or a file write failed: the errno.
    Io(i32),
    /// Waiting for the bootstrap child ended in neither an exit nor a
    /// signal.
    BootstrapAbnormal,
    /// A signal was to be sent but the record holds no process id.
    NoProcess,
    /// The state file does not hold a record, or the record does not match
    /// its directory.
    Corrupt,
}

impl RuntimeError {
    /// A short description, for reporting on the error stream.
    pub fn message(&self) -> (r: String) {
        match self {
            RuntimeError::NotFound => String::from_str("container does not exist"),
            RuntimeError::AlreadyExists => String::from_str("container already exists"),
            RuntimeError::InvalidStatus(_, _) => String::from_str(
                "container status forbids this command",
            ),
            RuntimeError::InvalidSignal(_) => String::from_str("invalid signal"),
            RuntimeError::Spec(_) => String::from_str("cannot load the bundle configuration"),
            RuntimeError::Syscall(_) => String::from_str("system call failed"),
            RuntimeError::Io(_) => String::from_str("file handling failed"),
            RuntimeError::BootstrapAbnormal => String::from_str("abnormal wait on bootstrap child"),
            RuntimeError::NoProcess => String::from_str("no process recorded"),
            RuntimeError::Corrupt => String::from_str("state file does not hold a valid record"),
        }
    }
}

} // verus!
