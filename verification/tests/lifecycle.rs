//! The container handle and the lifecycle commands against a real state
//! root under /tmp.

use rust_runtime::commands::{Create, Delete, Kill, Start, State as StateCmd};
use rust_runtime::container::Container;
use rust_runtime::error::RuntimeError;
use rust_runtime::notify::{NotifyListener, NotifySocket};
use rust_runtime::oci_config::{Capability, LinuxNamespaceType, Spec};
use rust_runtime::persist::write_all;
use rust_runtime::status::ContainerStatus;
use rust_runtime::sys::{path_exists, sys_close, sys_mkdir, sys_open_write};

fn my_pid() -> i32 {
    nix::unistd::getpid().as_raw()
}

/// A fresh directory under /tmp for one test, unique per run.
fn fresh_dir(tag: &str) -> String {
    let nanos = std::time::SystemTime::now()
        .duration_since(std::time::UNIX_EPOCH)
        .expect("clock")
        .as_nanos();
    let dir = format!("/tmp/rust_runtime_test_{}_{}_{}", my_pid(), nanos, tag);
    sys_mkdir(&dir).expect("mkdir should succeed");
    dir
}

fn write_file(path: &str, text: &str) {
    let fd = sys_open_write(path).expect("open should succeed");
    write_all(fd, &text.as_bytes().to_vec()).expect("write should succeed");
    sys_close(fd).expect("close should succeed");
}

#[test]
fn save_then_load_round_trips() {
    let root = fresh_dir("roundtrip");
    let dir = format!("{}/boxa", root);
    sys_mkdir(&dir).expect("mkdir");
    let c = Container::new("boxa", ContainerStatus::Created, Some(my_pid()), "/bundle", &dir);
    c.save().expect("save should succeed");
    assert!(path_exists(&format!("{}/state.json", dir)));
    assert!(!path_exists(&format!("{}/state.json.tmp", dir)));
    let back = Container::load(dir.clone()).expect("load should succeed");
    assert_eq!(back.id(), "boxa");
    assert!(matches!(back.status(), ContainerStatus::Created));
    assert_eq!(back.pid(), Some(my_pid()));
    assert_eq!(back.state.bundle, "/bundle");
}

#[test]
fn load_missing_is_not_found() {
    let root = fresh_dir("missing");
    let dir = format!("{}/ghost", root);
    assert!(matches!(Container::load(dir), Err(RuntimeError::NotFound)));
}

#[test]
fn load_rejects_id_mismatch() {
    let root = fresh_dir("mismatch");
    let dir = format!("{}/boxb", root);
    sys_mkdir(&dir).expect("mkdir");
    // A record written under a name that is not the directory's.
    let c = Container::new("other", ContainerStatus::Stopped, None, "/b", &dir);
    c.save().expect("save");
    assert!(matches!(Container::load(dir), Err(RuntimeError::Corrupt)));
}

#[test]
fn create_prepare_claims_the_directory() {
    let root = fresh_dir("create");
    let cmd = Create {
        pid_file: None,
        bundle: "/bundle".to_string(),
        console_socket: None,
        container_id: "foo".to_string(),
    };
    let c = cmd.prepare(&root).expect("first create should succeed");
    assert!(matches!(c.status(), ContainerStatus::Creating));
    assert_eq!(c.pid(), None);
    assert!(path_exists(&format!("{}/foo/state.json", root)));
    // A second create of the same id fails and leaves the record intact.
    assert!(matches!(cmd.prepare(&root), Err(RuntimeError::AlreadyExists)));
    let back = Container::load(format!("{}/foo", root)).expect("record should still load");
    assert!(matches!(back.status(), ContainerStatus::Creating));
}

#[test]
fn start_releases_and_persists_running() {
    let root = fresh_dir("start");
    let cmd = Create {
        pid_file: None,
        bundle: "/bundle".to_string(),
        console_socket: None,
        container_id: "foo".to_string(),
    };
    let c = cmd.prepare(&root).expect("create");
    let dir = c.root.clone();
    // Stand in for the bootstrap: a live init pid, status created.
    let mut c = c.set_pid(my_pid());
    c.set_status(ContainerStatus::Created);
    c.save().expect("save");
    // The listener the init side would block on.
    let listener = NotifyListener::new(&dir).expect("listener");
    let start = Start { container_id: "foo".to_string() };
    start.exec(&root).expect("start should succeed");
    // The connection is there to accept.
    listener.wait_for_container_start().expect("the start must have connected");
    listener.close();
    let back = Container::load(dir).expect("load");
    assert!(matches!(back.status(), ContainerStatus::Running));
    // The state command agrees, since the process is alive.
    let state = StateCmd { container_id: "foo".to_string() };
    let text = state.exec(&root).expect("state");
    assert!(text.contains("\"status\": \"running\""));
    assert!(text.contains("\"id\": \"foo\""));
}

#[test]
fn start_refuses_a_container_that_is_not_created() {
    let root = fresh_dir("nostart");
    let dir = format!("{}/bar", root);
    sys_mkdir(&dir).expect("mkdir");
    let c = Container::new("bar", ContainerStatus::Stopped, None, "/b", &dir);
    c.save().expect("save");
    let start = Start { container_id: "bar".to_string() };
    // With no recorded pid the refresh reports stopped, and start refuses.
    assert!(matches!(
        start.exec(&root),
        Err(RuntimeError::InvalidStatus(ContainerStatus::Created, ContainerStatus::Stopped))
    ));
}

#[test]
fn kill_by_name_persists_stopped() {
    let root = fresh_dir("kill");
    let dir = format!("{}/foo", root);
    sys_mkdir(&dir).expect("mkdir");
    // A live process: this test process itself, signalled with a harmless
    // window-change signal.
    let c = Container::new("foo", ContainerStatus::Running, Some(my_pid()), "/b", &dir);
    c.save().expect("save");
    let kill = Kill { container_id: "foo".to_string(), signal: "WINCH".to_string() };
    kill.exec(&root).expect("kill should succeed");
    let back = Container::load(dir).expect("load");
    assert!(matches!(back.status(), ContainerStatus::Stopped));
}

#[test]
fn kill_with_bad_signal_changes_nothing() {
    let root = fresh_dir("badsig");
    let dir = format!("{}/foo", root);
    sys_mkdir(&dir).expect("mkdir");
    let c = Container::new("foo", ContainerStatus::Running, Some(my_pid()), "/b", &dir);
    c.save().expect("save");
    let kill = Kill { container_id: "foo".to_string(), signal: "BOGUS".to_string() };
    assert!(matches!(kill.exec(&root), Err(RuntimeError::InvalidSignal(_))));
    // The record is untouched.
    let back = Container::load(dir).expect("load");
    assert!(matches!(back.status(), ContainerStatus::Running));
    assert_eq!(back.pid(), Some(my_pid()));
}

#[test]
fn delete_without_force_keeps_directory() {
    let root = fresh_dir("keep");
    let dir = format!("{}/foo", root);
    sys_mkdir(&dir).expect("mkdir");
    // The recorded process is alive, so the container is observed running.
    let c = Container::new("foo", ContainerStatus::Running, Some(my_pid()), "/b", &dir);
    c.save().expect("save");
    let del = Delete { container_id: "foo".to_string(), force: false };
    assert!(matches!(
        del.exec(&root),
        Err(RuntimeError::InvalidStatus(ContainerStatus::Stopped, ContainerStatus::Running))
    ));
    assert!(path_exists(&dir));
    assert!(path_exists(&format!("{}/state.json", dir)));
}

#[test]
fn delete_removes_a_stopped_container() {
    let root = fresh_dir("remove");
    let dir = format!("{}/foo", root);
    sys_mkdir(&dir).expect("mkdir");
    // No recorded pid: observed stopped.
    let c = Container::new("foo", ContainerStatus::Created, None, "/b", &dir);
    c.save().expect("save");
    let del = Delete { container_id: "foo".to_string(), force: false };
    del.exec(&root).expect("delete should succeed");
    assert!(!path_exists(&dir));
}

#[test]
fn refresh_corrects_the_status() {
    let root = fresh_dir("refresh");
    let dir = format!("{}/a", root);
    sys_mkdir(&dir).expect("mkdir");
    // A live pre-start process keeps its status.
    let mut c = Container::new("a", ContainerStatus::Created, Some(my_pid()), "/b", &dir);
    c.refresh_status();
    assert!(matches!(c.status(), ContainerStatus::Created));
    // A pid nothing runs under is observed stopped.
    let mut c = Container::new("a", ContainerStatus::Running, Some(2_000_000_000), "/b", &dir);
    c.refresh_status();
    assert!(matches!(c.status(), ContainerStatus::Stopped));
    // No pid at all is observed stopped.
    let mut c = Container::new("a", ContainerStatus::Creating, None, "/b", &dir);
    c.refresh_status();
    assert!(matches!(c.status(), ContainerStatus::Stopped));
}

#[test]
fn do_kill_outcomes() {
    let root = fresh_dir("dokill");
    let dir = format!("{}/a", root);
    let none = Container::new("a", ContainerStatus::Stopped, None, "/b", &dir);
    assert!(matches!(none.do_kill(9), Err(RuntimeError::NoProcess)));
    let live = Container::new("a", ContainerStatus::Running, Some(my_pid()), "/b", &dir);
    live.do_kill(28).expect("a harmless signal should be delivered");
    // A pid nothing runs under: the process is already gone, which counts
    // as success.
    let gone = Container::new("a", ContainerStatus::Running, Some(2_000_000_000), "/b", &dir);
    gone.do_kill(9).expect("a gone process counts as success");
}

#[test]
fn notify_socket_rendezvous() {
    let dir = fresh_dir("notify");
    let listener = NotifyListener::new(&dir).expect("bind");
    let client = NotifySocket::new(&dir);
    client.notify_container_start().expect("connect");
    listener.wait_for_container_start().expect("accept");
    listener.close();
}

#[test]
fn config_loader_reads_the_core_fields() {
    let dir = fresh_dir("config");
    let path = format!("{}/config.json", dir);
    write_file(
        &path,
        "{\n  \"ociVersion\": \"1.0.2\",\n  \"process\": {\n    \"args\": [\"/bin/sleep\", \"60\"],\n    \
         \"capabilities\": [\"CAP_CHOWN\", \"CAP_KILL\"]\n  },\n  \"root\": {\"path\": \"rootfs\"},\n  \
         \"linux\": {\n    \"namespaces\": [{\"type\": \"pid\"}, {\"type\": \"network\", \"path\": \"/x\"}],\n    \
         \"resources\": {\"oomScoreAdj\": -500}\n  }\n}",
    );
    let spec = Spec::load(&path).expect("config should load");
    assert_eq!(spec.process.args, vec!["/bin/sleep".to_string(), "60".to_string()]);
    assert_eq!(spec.root.path, "rootfs");
    let caps = spec.process.capabilities.expect("capabilities");
    assert_eq!(caps.bounding.len(), 2);
    assert_eq!(caps.bounding[0].cap, Capability::CapChown);
    assert_eq!(caps.ambient[1].cap, Capability::CapKill);
    let linux = spec.linux.expect("linux");
    assert_eq!(linux.namespaces.len(), 2);
    assert_eq!(linux.namespaces[0].typ, LinuxNamespaceType::Pid);
    assert_eq!(linux.namespaces[0].path, "");
    assert_eq!(linux.namespaces[1].typ, LinuxNamespaceType::Network);
    assert_eq!(linux.namespaces[1].path, "/x");
    assert_eq!(linux.resources.expect("resources").oom_score_adj, Some(-500));
}

#[test]
fn config_loader_rejects_missing_args() {
    let dir = fresh_dir("badconfig");
    let path = format!("{}/config.json", dir);
    write_file(&path, "{\"process\": {}, \"root\": {\"path\": \"rootfs\"}}");
    assert!(matches!(Spec::load(&path), Err(RuntimeError::Spec(_))));
    let path2 = format!("{}/config2.json", dir);
    write_file(&path2, "{\"process\": {\"args\": []}, \"root\": {\"path\": \"r\"}}");
    assert!(matches!(Spec::load(&path2), Err(RuntimeError::Spec(_))));
}

#[test]
fn save_load_round_trips_a_large_record() {
    // A record bigger than one read chunk exercises the chunked reader.
    let root = fresh_dir("large");
    let dir = format!("{}/big", root);
    sys_mkdir(&dir).expect("mkdir");
    let mut c = Container::new("big", ContainerStatus::Created, Some(1), "/b", &dir);
    let long_value: String = std::iter::repeat('x').take(10000).collect();
    c.state.annotations.push(("blob".to_string(), long_value.clone()));
    c.save().expect("save");
    let back = Container::load(dir).expect("load");
    assert_eq!(back.state.annotations[0].1, long_value);
}

#[test]
fn state_command_prints_the_record() {
    let root = fresh_dir("statecmd");
    let dir = format!("{}/pretty", root);
    sys_mkdir(&dir).expect("mkdir");
    let c = Container::new("pretty", ContainerStatus::Created, None, "/bundle", &dir);
    c.save().expect("save");
    let cmd = StateCmd { container_id: "pretty".to_string() };
    // With no recorded pid the refresh reports stopped.
    let text = cmd.exec(&root).expect("state");
    assert_eq!(
        text,
        "{\n  \"ociVersion\": \"v1.0.0\",\n  \"id\": \"pretty\",\n  \"status\": \"stopped\",\n  \
         \"pid\": null,\n  \"bundle\": \"/bundle\",\n  \"annotations\": {}\n}"
    );
}
