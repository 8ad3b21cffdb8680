//! Signal resolution, the status state machine, the command gates, and the
//! bootstrap decisions, on concrete values.

use rust_runtime::bootstrap::{bootstrap_exit_code, decode_init_pid, encode_init_pid,
    oom_score_text, pid_file_text, WaitOutcome};
use rust_runtime::commands::{delete_plan, kill_gate, start_gate, DeleteAction};
use rust_runtime::error::RuntimeError;
use rust_runtime::oci_config::{partition_namespaces, Capability, LinuxNamespace,
    LinuxNamespaceType};
use rust_runtime::signal::from_str;
use rust_runtime::status::ContainerStatus::{Created, Creating, Running, Stopped};
use rust_runtime::status::ProcessProbe::{Alive, Dead, Missing, NoPid, Zombie};
use rust_runtime::strutil::chars_of_str;
use rust_runtime::oci_config::capability_from_name;
use rust_runtime::status::{next_status, ContainerStatus, ProcessProbe};

#[test]
fn kill_names_resolve_to_nine() {
    // The spellings of SIGKILL all resolve to signal 9.
    assert_eq!(from_str("SIGKILL").unwrap(), 9);
    assert_eq!(from_str("KILL").unwrap(), 9);
    assert_eq!(from_str("sigkill").unwrap(), 9);
    assert_eq!(from_str("9").unwrap(), 9);
    assert_eq!(from_str("kill").unwrap(), 9);
}

#[test]
fn signal_table_round_trip() {
    let table = [
        ("HUP", 1),
        ("INT", 2),
        ("QUIT", 3),
        ("KILL", 9),
        ("USR1", 10),
        ("USR2", 12),
        ("PIPE", 13),
        ("TERM", 15),
        ("CHLD", 17),
        ("CONT", 18),
        ("STOP", 19),
        ("TSTP", 20),
        ("WINCH", 28),
    ];
    for (name, num) in table {
        assert_eq!(from_str(name).unwrap(), num);
        let prefixed = format!("SIG{}", name);
        assert_eq!(from_str(&prefixed).unwrap(), num);
        let lower = name.to_lowercase();
        assert_eq!(from_str(&lower).unwrap(), num);
    }
}

#[test]
fn bad_signals_are_invalid() {
    assert!(matches!(from_str("BOGUS"), Err(RuntimeError::InvalidSignal(_))));
    assert!(matches!(from_str(""), Err(RuntimeError::InvalidSignal(_))));
    assert!(matches!(from_str("0"), Err(RuntimeError::InvalidSignal(_))));
    assert!(matches!(from_str("65"), Err(RuntimeError::InvalidSignal(_))));
    assert!(matches!(from_str("100"), Err(RuntimeError::InvalidSignal(_))));
    assert!(matches!(from_str("SIG"), Err(RuntimeError::InvalidSignal(_))));
}

#[test]
fn numeric_signals_allow_leading_zeros() {
    assert_eq!(from_str("09").unwrap(), 9);
    assert_eq!(from_str("064").unwrap(), 64);
    assert!(from_str("000").is_err());
}

#[test]
fn gating_predicates_exact() {
    assert!(Created.can_start());
    assert!(!Creating.can_start() && !Running.can_start() && !Stopped.can_start());
    assert!(Created.can_kill() && Running.can_kill());
    assert!(!Creating.can_kill() && !Stopped.can_kill());
    assert!(Stopped.can_delete());
    assert!(!Creating.can_delete() && !Created.can_delete() && !Running.can_delete());
}

#[test]
fn gates_name_the_observed_status() {
    assert!(start_gate(ContainerStatus::Created).is_ok());
    assert!(matches!(
        start_gate(ContainerStatus::Running),
        Err(RuntimeError::InvalidStatus(ContainerStatus::Created, ContainerStatus::Running))
    ));
    assert!(kill_gate(ContainerStatus::Running).is_ok());
    assert!(kill_gate(ContainerStatus::Created).is_ok());
    assert!(matches!(
        kill_gate(ContainerStatus::Stopped),
        Err(RuntimeError::InvalidStatus(_, ContainerStatus::Stopped))
    ));
}

#[test]
fn refresh_table_exact() {
    // Any sign of a gone process means stopped.
    for st in [Creating, Created, Running, Stopped] {
        assert_eq!(next_status(st, NoPid), Stopped);
        assert_eq!(next_status(st, Missing), Stopped);
        assert_eq!(next_status(st, Zombie), Stopped);
        assert_eq!(next_status(st, Dead), Stopped);
    }
    // A live process keeps a pre-start status and otherwise means running.
    assert_eq!(next_status(Creating, Alive), Creating);
    assert_eq!(next_status(Created, Alive), Created);
    assert_eq!(next_status(Running, Alive), Running);
    assert_eq!(next_status(Stopped, Alive), Running);
}

#[test]
fn delete_plan_exact() {
    assert_eq!(delete_plan(Stopped, false), DeleteAction::Remove);
    assert_eq!(delete_plan(Stopped, true), DeleteAction::Remove);
    for st in [Creating, Created, Running] {
        assert_eq!(delete_plan(st, false), DeleteAction::Refuse);
        assert_eq!(delete_plan(st, true), DeleteAction::ForceKill);
    }
}

#[test]
fn bootstrap_exit_codes() {
    assert_eq!(bootstrap_exit_code(WaitOutcome::Exited(3)).unwrap(), 3);
    assert_eq!(bootstrap_exit_code(WaitOutcome::Exited(0)).unwrap(), 0);
    assert_eq!(bootstrap_exit_code(WaitOutcome::Signaled(15)).unwrap(), 0);
    assert!(matches!(
        bootstrap_exit_code(WaitOutcome::Other),
        Err(RuntimeError::BootstrapAbnormal)
    ));
}

#[test]
fn pid_frame_round_trips() {
    for pid in [0, 1, 255, 256, 65535, 1048576, i32::MAX] {
        let frame = encode_init_pid(pid);
        assert_eq!(frame.len(), 4);
        assert_eq!(decode_init_pid(&frame), Some(pid));
    }
    assert_eq!(encode_init_pid(1), vec![1u8, 0, 0, 0]);
    assert_eq!(encode_init_pid(258), vec![2u8, 1, 0, 0]);
    assert_eq!(decode_init_pid(&vec![0u8, 0, 0]), None);
    assert_eq!(decode_init_pid(&vec![255u8, 255, 255, 255]), None);
}

#[test]
fn bootstrap_texts() {
    assert_eq!(pid_file_text(1234), "1234");
    assert_eq!(oom_score_text(-1000), "-1000");
    assert_eq!(oom_score_text(0), "0");
}

#[test]
fn namespace_partition_exact() {
    let ns = vec![
        LinuxNamespace { typ: LinuxNamespaceType::Pid, path: String::new() },
        LinuxNamespace { typ: LinuxNamespaceType::Network, path: "/proc/1/ns/net".to_string() },
        LinuxNamespace { typ: LinuxNamespaceType::Uts, path: String::new() },
    ];
    let (cf, to_enter) = partition_namespaces(&ns);
    assert_eq!(cf, 0x20000000 | 0x04000000);
    assert_eq!(to_enter.len(), 1);
    assert_eq!(to_enter[0].0, 0x40000000);
    assert_eq!(to_enter[0].1, "/proc/1/ns/net");
}

#[test]
fn capability_names_resolve() {
    let chown: Vec<char> = chars_of_str("CAP_CHOWN");
    assert_eq!(capability_from_name(&chown), Some(Capability::CapChown));
    let admin: Vec<char> = chars_of_str("CAP_SYS_ADMIN");
    assert_eq!(capability_from_name(&admin), Some(Capability::CapSysAdmin));
    let nope: Vec<char> = chars_of_str("CAP_NOPE");
    assert_eq!(capability_from_name(&nope), None);
    let lower: Vec<char> = chars_of_str("cap_chown");
    assert_eq!(capability_from_name(&lower), None);
}
