//! The lifecycle commands: thin drivers over the container handle.
//!
//! Each command joins the state root with the container id, loads and
//! refreshes the record, checks the gating predicate for its status, does
//! its one piece of work, and persists.  The gates and plans here carry the
//! exact contracts; the drivers themselves depend on the machine.

use vstd::prelude::*;

use crate::container::Container;
use crate::error::RuntimeError;
use crate::json::{emit_string, emit_value, JsonView};
use crate::notify::NotifySocket;
use crate::numfmt::{dec_rep_signed, push_dec_i64};
use crate::signal;
use crate::state_record::{ann_json, status_str, StateView};
use crate::status::ContainerStatus;
use crate::strutil::{chars_of_str, path_join};
use crate::sys::{chars_to_string, path_exists, sys_mkdir, sys_rmdir, sys_unlink};

verus! {

/// `start` requires a created container.
pub fn start_gate(st: ContainerStatus) -> (r: Result<(), RuntimeError>)
    ensures
        r is Ok <==> st == ContainerStatus::Created,
        r is Err ==> r == Err::<(), RuntimeError>(
            RuntimeError::InvalidStatus(ContainerStatus::Created, st),
        ),
{
    if st.can_start() {
        Ok(())
    } else {
        Err(RuntimeError::InvalidStatus(ContainerStatus::Created, st))
    }
}

/// `kill` and `stop` require a created or running container.
pub fn kill_gate(st: ContainerStatus) -> (r: Result<(), RuntimeError>)
    ensures
        r is Ok <==> (st == ContainerStatus::Created || st == ContainerStatus::Running),
        r is Err ==> r == Err::<(), RuntimeError>(
            RuntimeError::InvalidStatus(ContainerStatus::Running, st),
        ),
{
    if st.can_kill() {
        Ok(())
    } else {
        Err(RuntimeError::InvalidStatus(ContainerStatus::Running, st))
    }
}

/// `delete` requires a stopped container.
pub fn delete_gate(st: ContainerStatus) -> (r: Result<(), RuntimeError>)
    ensures
        r is Ok <==> st == ContainerStatus::Stopped,
        r is Err ==> r == Err::<(), RuntimeError>(
            RuntimeError::InvalidStatus(ContainerStatus::Stopped, st),
        ),
{
    if st.can_delete() {
        Ok(())
    } else {
        Err(RuntimeError::InvalidStatus(ContainerStatus::Stopped, st))
    }
}

/// The guard every command that addresses an existing container starts
/// with: a missing state directory is `NotFound`, and nothing else is
/// touched.
pub fn exists_gate(present: bool) -> (r: Result<(), RuntimeError>)
    ensures
        r is Ok <==> present,
        r is Err ==> r == Err::<(), RuntimeError>(RuntimeError::NotFound),
{
    if present {
        Ok(())
    } else {
        Err(RuntimeError::NotFound)
    }
}

/// What `delete` does for a given observed status.
#[derive(Debug, Clone, Copy, PartialEq, Eq, Structural)]
pub enum DeleteAction {
    /// The container is stopped: remove its directory.
    Remove,
    /// Not stopped, but force was given: kill, persist stopped, then
    /// remove.
    ForceKill,
    /// Not stopped and no force: refuse and leave everything in place.
    Refuse,
}

/// The decision table of `delete`.
pub open spec fn spec_delete_plan(st: ContainerStatus, force: bool) -> DeleteAction {
    if st == ContainerStatus::Stopped {
        DeleteAction::Remove
    } else if force {
        DeleteAction::ForceKill
    } else {
        DeleteAction::Refuse
    }
}

/// Chooses what `delete` does.
pub fn delete_plan(st: ContainerStatus, force: bool) -> (r: DeleteAction)
    ensures
        r == spec_delete_plan(st, force),
{
    if st.can_delete() {
        DeleteAction::Remove
    } else if force {
        DeleteAction::ForceKill
    } else {
        DeleteAction::Refuse
    }
}

/// Without force, `delete` on a container that is not stopped refuses, and
/// so never removes the state directory.
pub proof fn lemma_delete_keeps_directory(st: ContainerStatus)
    requires
        st != ContainerStatus::Stopped,
    ensures
        spec_delete_plan(st, false) == DeleteAction::Refuse,
{
}

/// Creates a container: its state directory, record and notify listener.
/// The fork that populates it is driven from outside the library.
pub struct Create {
    /// Where to write the intermediate child's pid, if anywhere.
    pub pid_file: Option<String>,
    /// The bundle directory, canonical.
    pub bundle: String,
    /// The console socket path handed through, if any.
    pub console_socket: Option<String>,
    pub container_id: String,
}

impl Create {
    /// Claims the state directory and persists the initial record: fails
    /// if the directory already exists, creates it, and saves the record
    /// as `creating` with no process id.
    pub fn prepare(&self, root_path: &str) -> (r: Result<Container, RuntimeError>)
        ensures
            r matches Ok(c) ==> c.state@.status == ContainerStatus::Creating && c.state@.pid
                is None && c.state@.id == self.container_id@ && c.state@.bundle == self.bundle@,
            r is Err ==> (r matches Err(RuntimeError::AlreadyExists) || r matches Err(
                RuntimeError::Io(_),
            )),
    {
        let dir_chars = path_join(root_path, self.container_id.as_str());
        let dir = chars_to_string(&dir_chars);
        if path_exists(dir.as_str()) {
            return Err(RuntimeError::AlreadyExists);
        }
        match sys_mkdir(dir.as_str()) {
            Ok(()) => {},
            Err(e) => {
                return Err(RuntimeError::Io(e));
            },
        }
        let container = Container::new(
            self.container_id.as_str(),
            ContainerStatus::Creating,
            None,
            self.bundle.as_str(),
            &dir,
        );
        match container.save() {
            Ok(()) => Ok(container),
            Err(e) => Err(e),
        }
    }
}

/// Releases a created container into running.
pub struct Start {
    pub container_id: String,
}

impl Start {
    /// Loads and refreshes the record, requires `can_start`, connects to
    /// the notify socket to release the init, and persists `running`.  A
    /// status refusal always names the created state as what was needed.
    pub fn exec(&self, root_path: &str) -> (r: Result<(), RuntimeError>)
        ensures
            r matches Err(RuntimeError::InvalidStatus(expected, _)) ==> expected
                == ContainerStatus::Created,
    {
        let dir_chars = path_join(root_path, self.container_id.as_str());
        let dir = chars_to_string(&dir_chars);
        match exists_gate(path_exists(dir.as_str())) {
            Ok(()) => {},
            Err(e) => {
                return Err(e);
            },
        }
        let mut container = match Container::load(dir) {
            Ok(c) => c,
            Err(e) => {
                return Err(e);
            },
        };
        container.refresh_status();
        match start_gate(container.status()) {
            Ok(()) => {},
            Err(e) => {
                return Err(e);
            },
        }
        let socket = NotifySocket::new(container.root.as_str());
        match socket.notify_container_start() {
            Ok(()) => {},
            Err(e) => {
                return Err(e);
            },
        }
        container.set_status(ContainerStatus::Running);
        container.save()
    }
}

/// Sends a signal to a container.
pub struct Kill {
    pub container_id: String,
    pub signal: String,
}

impl Kill {
    /// Loads and refreshes the record, requires `can_kill`, resolves the
    /// signal word, sends the signal, and persists `stopped`.  An invalid
    /// signal is reported exactly when the word names no signal, and leaves
    /// the record untouched.
    pub fn exec(&self, root_path: &str) -> (r: Result<(), RuntimeError>)
        ensures
            r is Ok ==> crate::signal::spec_signal_of(self.signal@) is Some,
            r matches Err(RuntimeError::InvalidSignal(_)) ==> crate::signal::spec_signal_of(
                self.signal@,
            ) is None,
            r matches Err(RuntimeError::InvalidStatus(expected, _)) ==> expected
                == ContainerStatus::Running,
    {
        let dir_chars = path_join(root_path, self.container_id.as_str());
        let dir = chars_to_string(&dir_chars);
        match exists_gate(path_exists(dir.as_str())) {
            Ok(()) => {},
            Err(e) => {
                return Err(e);
            },
        }
        let mut container = match Container::load(dir) {
            Ok(c) => c,
            Err(e) => {
                return Err(e);
            },
        };
        container.refresh_status();
        match kill_gate(container.status()) {
            Ok(()) => {},
            Err(e) => {
                return Err(e);
            },
        }
        let sig = match signal::from_str(self.signal.as_str()) {
            Ok(sig) => sig,
            Err(e) => {
                return Err(e);
            },
        };
        match container.do_kill(sig) {
            Ok(()) => {},
            Err(e) => {
                return Err(e);
            },
        }
        container.set_status(ContainerStatus::Stopped);
        container.save()
    }
}

/// Forces a container to stopped with SIGKILL.
pub struct Stop {
    pub container_id: String,
}

impl Stop {
    /// Like `kill` with SIGKILL: loads, refreshes, requires `can_kill`,
    /// kills, persists `stopped`.
    pub fn exec(&self, root_path: &str) -> (r: Result<(), RuntimeError>)
        ensures
            r matches Err(RuntimeError::InvalidStatus(expected, _)) ==> expected
                == ContainerStatus::Running,
    {
        let dir_chars = path_join(root_path, self.container_id.as_str());
        let dir = chars_to_string(&dir_chars);
        match exists_gate(path_exists(dir.as_str())) {
            Ok(()) => {},
            Err(e) => {
                return Err(e);
            },
        }
        let mut container = match Container::load(dir) {
            Ok(c) => c,
            Err(e) => {
                return Err(e);
            },
        };
        container.refresh_status();
        match kill_gate(container.status()) {
            Ok(()) => {},
            Err(e) => {
                return Err(e);
            },
        }
        match container.do_kill(9) {
            Ok(()) => {},
            Err(e) => {
                return Err(e);
            },
        }
        container.set_status(ContainerStatus::Stopped);
        container.save()
    }
}

/// Releases the resources of a container.
pub struct Delete {
    pub container_id: String,
    /// Forces deletion of a container that is not stopped, using SIGKILL.
    pub force: bool,
}

impl Delete {
    /// Loads and refreshes the record and follows the delete plan: a
    /// stopped container's directory is removed; with force, the container
    /// is first killed and persisted stopped; otherwise the command
    /// refuses and leaves the directory in place.  A refusal names the
    /// stopped state as what was needed and the observed status, which was
    /// not stopped.
    pub fn exec(&self, root_path: &str) -> (r: Result<(), RuntimeError>)
        ensures
            r matches Err(RuntimeError::InvalidStatus(expected, actual)) ==> expected
                == ContainerStatus::Stopped && actual != ContainerStatus::Stopped && !self.force,
    {
        let dir_chars = path_join(root_path, self.container_id.as_str());
        let dir = chars_to_string(&dir_chars);
        match exists_gate(path_exists(dir.as_str())) {
            Ok(()) => {},
            Err(e) => {
                return Err(e);
            },
        }
        let mut container = match Container::load(dir) {
            Ok(c) => c,
            Err(e) => {
                return Err(e);
            },
        };
        container.refresh_status();
        match delete_plan(container.status(), self.force) {
            DeleteAction::Refuse => {
                return Err(RuntimeError::InvalidStatus(
                    ContainerStatus::Stopped,
                    container.status(),
                ));
            },
            DeleteAction::ForceKill => {
                match container.do_kill(9) {
                    Ok(()) => {},
                    Err(e) => {
                        return Err(e);
                    },
                }
                container.set_status(ContainerStatus::Stopped);
                match container.save() {
                    Ok(()) => {},
                    Err(e) => {
                        return Err(e);
                    },
                }
            },
            DeleteAction::Remove => {},
        }
        match delete_gate(container.status()) {
            Ok(()) => {},
            Err(e) => {
                return Err(e);
            },
        }
        remove_state_dir(container.root.as_str())
    }
}

/// Removes the files the runtime itself puts into a state directory, then
/// the directory.  A file that is already gone is no error.
fn remove_state_dir(root: &str) -> (r: Result<(), RuntimeError>)
    ensures
        r is Err ==> r matches Err(RuntimeError::Io(_)),
{
    let f1 = chars_to_string(&path_join(root, "state.json"));
    let _ = sys_unlink(f1.as_str());
    let f2 = chars_to_string(&path_join(root, "state.json.tmp"));
    let _ = sys_unlink(f2.as_str());
    let f3 = chars_to_string(&path_join(root, "notify.sock"));
    let _ = sys_unlink(f3.as_str());
    let f4 = chars_to_string(&path_join(root, "console-stdout"));
    let _ = sys_unlink(f4.as_str());
    match sys_rmdir(root) {
        Ok(()) => Ok(()),
        Err(e) => Err(RuntimeError::Io(e)),
    }
}

/// The state record, laid out for reading: the six fields each on a line
/// of their own, the annotations object in its compact form.
pub open spec fn state_pretty(sv: StateView) -> Seq<char> {
    "{\n  \"ociVersion\": "@ + emit_string(sv.oci_version) + ",\n  \"id\": "@ + emit_string(sv.id)
        + ",\n  \"status\": "@ + emit_string(status_str(sv.status)) + ",\n  \"pid\": "@
        + pid_pretty(sv.pid) + ",\n  \"bundle\": "@ + emit_string(sv.bundle)
        + ",\n  \"annotations\": "@ + emit_value(JsonView::Obj(ann_json(sv.annotations))) + "\n}"@
}

/// A recorded pid, or the JSON null.
pub open spec fn pid_pretty(pid: Option<int>) -> Seq<char> {
    match pid {
        None => "null"@,
        Some(p) => dec_rep_signed(p),
    }
}

/// Appends the characters of a string slice.
fn push_chars(out: &mut Vec<char>, s: &str)
    ensures
        final(out)@ == old(out)@ + s@,
{
    let cs = chars_of_str(s);
    let n = cs.len();
    let mut i: usize = 0;
    while i < n
        invariant
            i <= n,
            n == cs@.len(),
            cs@ == s@,
            out@ == old(out)@ + s@.subrange(0, i as int),
        decreases n - i,
    {
        out.push(cs[i]);
        proof {
            assert(out@ =~= old(out)@ + s@.subrange(0, i as int + 1));
        }
        i = i + 1;
    }
    proof {
        assert(s@.subrange(0, n as int) =~= s@);
    }
}

/// Renders a record for the `state` command.
pub fn render_state(c: &Container) -> (r: Vec<char>)
    ensures
        r@ == state_pretty(c.state@),
{
    let mut out: Vec<char> = Vec::new();
    push_chars(&mut out, "{\n  \"ociVersion\": ");
    crate::json::push_quoted(&mut out, &chars_of_str(c.state.oci_version.as_str()));
    push_chars(&mut out, ",\n  \"id\": ");
    crate::json::push_quoted(&mut out, &chars_of_str(c.state.id.as_str()));
    push_chars(&mut out, ",\n  \"status\": ");
    crate::json::push_quoted(&mut out, &crate::state_record::status_chars(c.state.status));
    push_chars(&mut out, ",\n  \"pid\": ");
    match c.state.pid {
        None => push_chars(&mut out, "null"),
        Some(p) => push_dec_i64(&mut out, p as i64),
    }
    push_chars(&mut out, ",\n  \"bundle\": ");
    crate::json::push_quoted(&mut out, &chars_of_str(c.state.bundle.as_str()));
    push_chars(&mut out, ",\n  \"annotations\": ");
    let ann_obj = crate::json::JsonValue::Obj(crate::state_record::ann_to_json(&c.state.annotations));
    crate::json::push_value(&mut out, &ann_obj);
    push_chars(&mut out, "\n}");
    proof {
        assert(out@ =~= state_pretty(c.state@));
    }
    out
}

/// Prints one container's record.
pub struct State {
    pub container_id: String,
}

impl State {
    /// Loads and refreshes the record and yields its pretty text; the
    /// caller prints it.
    pub fn exec(&self, root_path: &str) -> (r: Result<String, RuntimeError>)
        ensures
            r is Err ==> (r matches Err(RuntimeError::NotFound) || r matches Err(
                RuntimeError::Io(_),
            ) || r matches Err(RuntimeError::Corrupt)),
    {
        let dir_chars = path_join(root_path, self.container_id.as_str());
        let dir = chars_to_string(&dir_chars);
        let mut container = match Container::load(dir) {
            Ok(c) => c,
            Err(e) => {
                return Err(e);
            },
        };
        container.refresh_status();
        let text = render_state(&container);
        Ok(chars_to_string(&text))
    }
}

} // verus!
