//! The container status state machine and the predicates that gate the
//! lifecycle commands.

use vstd::prelude::*;

verus! {

/// The four OCI container states, in lifecycle order.
#[derive(Debug, Clone, Copy, PartialEq, Eq, Structural)]
pub enum ContainerStatus {
    /// The container is being created.
    Creating,
    /// The runtime has finished the create operation.
    Created,
    /// The container process has executed the user-specified program and has
    /// not exited.
    Running,
    /// The container process has exited.
    Stopped,
}

impl ContainerStatus {
    /// Position of a status in the lifecycle order
    /// Creating < Created < Running < Stopped.
    pub open spec fn rank(self) -> int {
        match self {
            ContainerStatus::Creating => 0,
            ContainerStatus::Created => 1,
            ContainerStatus::Running => 2,
            ContainerStatus::Stopped => 3,
        }
    }

    /// `start` is allowed exactly on a created container.
    pub fn can_start(&self) -> (r: bool)
        ensures
            r == (*self == ContainerStatus::Created),
    {
        matches!(self, ContainerStatus::Created)
    }

    /// `kill` (and `stop`) are allowed exactly on a created or running
    /// container.
    pub fn can_kill(&self) -> (r: bool)
        ensures
            r == (*self == ContainerStatus::Created || *self == ContainerStatus::Running),
    {
        matches!(self, ContainerStatus::Created | ContainerStatus::Running)
    }

    /// `delete` (without force) is allowed exactly on a stopped container.
    pub fn can_delete(&self) -> (r: bool)
        ensures
            r == (*self == ContainerStatus::Stopped),
    {
        matches!(self, ContainerStatus::Stopped)
    }
}

/// What a probe of `/proc/<pid>/stat` can observe about the recorded process.
#[derive(Debug, Clone, Copy, PartialEq, Eq, Structural)]
pub enum ProcessProbe {
    /// There is no recorded pid at all.
    NoPid,
    /// `/proc/<pid>` could not be read: the process is gone.
    Missing,
    /// The process is a zombie.
    Zombie,
    /// The process is dead.
    Dead,
    /// The process is in any other (live) state.
    Alive,
}

/// The corrected status derived from the stored status and a probe of the
/// recorded process: a gone, zombie or dead process means stopped; a live
/// process keeps a pre-start status and otherwise means running.
pub open spec fn spec_next_status(stored: ContainerStatus, probe: ProcessProbe) -> ContainerStatus {
    match probe {
        ProcessProbe::NoPid => ContainerStatus::Stopped,
        ProcessProbe::Missing => ContainerStatus::Stopped,
        ProcessProbe::Zombie => ContainerStatus::Stopped,
        ProcessProbe::Dead => ContainerStatus::Stopped,
        ProcessProbe::Alive => match stored {
            ContainerStatus::Creating => ContainerStatus::Creating,
            ContainerStatus::Created => ContainerStatus::Created,
            _ => ContainerStatus::Running,
        },
    }
}

/// Computes the corrected status for a stored status and a process probe.
pub fn next_status(stored: ContainerStatus, probe: ProcessProbe) -> (r: ContainerStatus)
    ensures
        r == spec_next_status(stored, probe),
{
    match probe {
        ProcessProbe::Alive => match stored {
            ContainerStatus::Creating => ContainerStatus::Creating,
            ContainerStatus::Created => ContainerStatus::Created,
            _ => ContainerStatus::Running,
        },
        _ => ContainerStatus::Stopped,
    }
}

/// A status refresh never moves the status backwards in the lifecycle order,
/// with one exception: a container already recorded as stopped whose process
/// is observed alive again is reported as running.
pub proof fn lemma_refresh_monotonic(stored: ContainerStatus, probe: ProcessProbe)
    requires
        !(stored == ContainerStatus::Stopped && probe == ProcessProbe::Alive),
    ensures
        stored.rank() <= spec_next_status(stored, probe).rank(),
{
}

/// Refreshing is idempotent: correcting an already corrected status changes
/// nothing, whatever the probe observes the second time, as long as the
/// process did not come back from the dead.
pub proof fn lemma_refresh_idempotent(stored: ContainerStatus, probe: ProcessProbe)
    requires
        !(spec_next_status(stored, probe) == ContainerStatus::Stopped && probe
            == ProcessProbe::Alive),
    ensures
        spec_next_status(spec_next_status(stored, probe), probe) == spec_next_status(
            stored,
            probe,
        ),
{
}

} // verus!
