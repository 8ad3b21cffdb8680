//! The in-memory container handle: a state record plus its on-disk
//! directory, with status refresh, persistence and signal delivery.

use vstd::prelude::*;

use crate::error::RuntimeError;
use crate::persist::{read_all, write_all};
use crate::state_record::{decode_state, encode_state, State};
use crate::status::{ContainerStatus, ProcessProbe};
use crate::strutil::{chars_eq, chars_of_str, path_base, path_base_x, path_join};
use crate::sys::{
    chars_to_string, probe_process, sys_close, sys_kill, sys_open_read, sys_open_write, sys_rename,
    utf8_to_chars, KillOutcome, ENOENT_CODE,
};

verus! {

/// What a kill outcome means for the caller: delivery is success, and so
/// is a process that is already gone — the caller will observe it stopped.
/// Any other failure surfaces as the system call's error.
pub open spec fn spec_kill_result(o: KillOutcome) -> Result<(), RuntimeError> {
    match o {
        KillOutcome::Delivered => Ok(()),
        KillOutcome::NoSuchProcess => Ok(()),
        KillOutcome::Failed(e) => Err(RuntimeError::Syscall(e)),
    }
}

/// Classifies one kill outcome.
pub fn classify_kill(o: KillOutcome) -> (r: Result<(), RuntimeError>)
    ensures
        r == spec_kill_result(o),
{
    match o {
        KillOutcome::Delivered => Ok(()),
        KillOutcome::NoSuchProcess => Ok(()),
        KillOutcome::Failed(e) => Err(RuntimeError::Syscall(e)),
    }
}

/// One container: its record and the canonical path of its state
/// directory.  The caller hands in the directory path already canonical.
#[derive(Debug)]
pub struct Container {
    pub state: State,
    pub root: String,
}

impl Container {
    /// A handle over a fresh record.
    pub fn new(
        container_id: &str,
        status: ContainerStatus,
        pid: Option<i32>,
        bundle: &str,
        container_root: &String,
    ) -> (c: Container)
        ensures
            c.state@.id == container_id@,
            c.state@.status == status,
            c.state@.pid == crate::state_record::pid_view(pid),
            c.state@.bundle == bundle@,
            c.state@.annotations.len() == 0,
            c.root@ == container_root@,
    {
        Container { state: State::new(container_id, status, pid, bundle), root: container_root.clone() }
    }

    /// The container identifier.
    pub fn id(&self) -> (r: &str)
        ensures
            r@ == self.state@.id,
    {
        self.state.id.as_str()
    }

    /// The recorded status.
    pub fn status(&self) -> (r: ContainerStatus)
        ensures
            r == self.state@.status,
    {
        self.state.status
    }

    /// Replaces the recorded status in memory; nothing is persisted.
    pub fn set_status(&mut self, status: ContainerStatus)
        ensures
            final(self).state@.status == status,
            final(self).state@.id == old(self).state@.id,
            final(self).state@.oci_version == old(self).state@.oci_version,
            final(self).state@.pid == old(self).state@.pid,
            final(self).state@.bundle == old(self).state@.bundle,
            final(self).state@.annotations == old(self).state@.annotations,
            final(self).root == old(self).root,
    {
        self.state.status = status;
    }

    /// The recorded process id.
    pub fn pid(&self) -> (r: Option<i32>)
        ensures
            r == self.state.pid,
    {
        self.state.pid
    }

    /// A new handle over the same directory whose record carries the given
    /// process id.
    pub fn set_pid(&self, pid: i32) -> (c: Container)
        ensures
            c.state@.id == self.state@.id,
            c.state@.status == self.state@.status,
            c.state@.pid == Some(pid as int),
            c.state@.bundle == self.state@.bundle,
            c.state@.annotations.len() == 0,
            c.root@ == self.root@,
    {
        Container {
            state: State::new(
                self.state.id.as_str(),
                self.state.status,
                Some(pid),
                self.state.bundle.as_str(),
            ),
            root: self.root.clone(),
        }
    }

    /// `start` is allowed exactly on a created container.
    pub fn can_start(&self) -> (r: bool)
        ensures
            r == (self.state@.status == ContainerStatus::Created),
    {
        self.state.status.can_start()
    }

    /// `kill` and `stop` are allowed exactly on a created or running
    /// container.
    pub fn can_kill(&self) -> (r: bool)
        ensures
            r == (self.state@.status == ContainerStatus::Created || self.state@.status
                == ContainerStatus::Running),
    {
        self.state.status.can_kill()
    }

    /// `delete` without force is allowed exactly on a stopped container.
    pub fn can_delete(&self) -> (r: bool)
        ensures
            r == (self.state@.status == ContainerStatus::Stopped),
    {
        self.state.status.can_delete()
    }

    /// Corrects the recorded status from a probe of `/proc`: no recorded
    /// pid or a gone, zombie or dead process means stopped; a live process
    /// keeps a pre-start status and otherwise means running.  Nothing is
    /// persisted.
    pub fn refresh_status(&mut self)
        ensures
            final(self).state@.id == old(self).state@.id,
            final(self).state@.oci_version == old(self).state@.oci_version,
            final(self).state@.pid == old(self).state@.pid,
            final(self).state@.bundle == old(self).state@.bundle,
            final(self).state@.annotations == old(self).state@.annotations,
            final(self).root == old(self).root,
            old(self).state.pid is None ==> final(self).state@.status == ContainerStatus::Stopped,
            exists|p: ProcessProbe|
                final(self).state@.status == crate::status::spec_next_status(
                    old(self).state@.status,
                    p,
                ),
    {
        let probe = match self.state.pid {
            None => ProcessProbe::NoPid,
            Some(pid) => probe_process(pid),
        };
        let next = crate::status::next_status(self.state.status, probe);
        self.state.status = next;
        proof {
            assert(final(self).state@.status == crate::status::spec_next_status(
                old(self).state@.status,
                probe,
            ));
        }
    }

    /// Sends a signal to the recorded process.  With no recorded pid this
    /// fails at once; otherwise the result is exactly the classification of
    /// what the one kill call came to.
    pub fn do_kill(&self, sig: i32) -> (r: Result<(), RuntimeError>)
        ensures
            self.state.pid is None <==> r == Err::<(), RuntimeError>(RuntimeError::NoProcess),
            self.state.pid is Some ==> exists|o: KillOutcome| r == spec_kill_result(o),
            self.state.pid is Some ==> (r is Ok || r matches Err(RuntimeError::Syscall(_))),
    {
        match self.state.pid {
            None => Err(RuntimeError::NoProcess),
            Some(pid) => {
                let outcome = sys_kill(pid, sig);
                let r = classify_kill(outcome);
                proof {
                    assert(r == spec_kill_result(outcome));
                }
                r
            },
        }
    }

    /// Writes the record to `state.json` in the state directory: the text
    /// goes to `state.json.tmp` first and is renamed over the live file, so
    /// a concurrent reader sees the old record or the new one, never a
    /// mixture (`crate::persist::lemma_save_atomic`).
    pub fn save(&self) -> (r: Result<(), RuntimeError>)
        ensures
            r is Err ==> r matches Err(RuntimeError::Io(_)),
    {
        let text = encode_state(&self.state);
        let string_form = chars_to_string(&text);
        let bytes = string_form.as_str().as_bytes_vec();
        let tmp_chars = path_join(self.root.as_str(), "state.json.tmp");
        let tmp = chars_to_string(&tmp_chars);
        let live_chars = path_join(self.root.as_str(), "state.json");
        let live = chars_to_string(&live_chars);
        let fd = match sys_open_write(tmp.as_str()) {
            Ok(fd) => fd,
            Err(e) => {
                return Err(RuntimeError::Io(e));
            },
        };
        match write_all(fd, &bytes) {
            Ok(()) => {},
            Err(e) => {
                let _ = sys_close(fd);
                return Err(RuntimeError::Io(e));
            },
        }
        match sys_close(fd) {
            Ok(()) => {},
            Err(e) => {
                return Err(RuntimeError::Io(e));
            },
        }
        match sys_rename(tmp.as_str(), live.as_str()) {
            Ok(()) => Ok(()),
            Err(e) => Err(RuntimeError::Io(e)),
        }
    }

    /// Reads the record back from `state.json` under the given directory.
    /// A missing file is `NotFound`; a file that does not hold a record, or
    /// whose id does not match the directory name, is `Corrupt`.
    pub fn load(container_root: String) -> (r: Result<Container, RuntimeError>)
        ensures
            r matches Ok(c) ==> c.root@ == container_root@ && c.state@.id == path_base(
                container_root@,
            ),
            r is Err ==> (r matches Err(RuntimeError::NotFound) || r matches Err(
                RuntimeError::Io(_),
            ) || r matches Err(RuntimeError::Corrupt)),
    {
        let live_chars = path_join(container_root.as_str(), "state.json");
        let live = chars_to_string(&live_chars);
        let fd = match sys_open_read(live.as_str()) {
            Ok(fd) => fd,
            Err(e) => {
                if e == ENOENT_CODE {
                    return Err(RuntimeError::NotFound);
                }
                return Err(RuntimeError::Io(e));
            },
        };
        let bytes = match read_all(fd) {
            Ok(b) => b,
            Err(e) => {
                let _ = sys_close(fd);
                return Err(RuntimeError::Io(e));
            },
        };
        let _ = sys_close(fd);
        let chars = match utf8_to_chars(&bytes) {
            Some(cs) => cs,
            None => {
                return Err(RuntimeError::Corrupt);
            },
        };
        let state = match decode_state(&chars) {
            Some(s) => s,
            None => {
                return Err(RuntimeError::Corrupt);
            },
        };
        // The record must name the directory it sits in.
        let root_chars = chars_of_str(container_root.as_str());
        let base = path_base_x(&root_chars);
        let id_chars = chars_of_str(state.id.as_str());
        if !chars_eq(&id_chars, &base) {
            return Err(RuntimeError::Corrupt);
        }
        Ok(Container { state, root: container_root })
    }
}

} // verus!
