//! The bundle configuration: the OCI runtime configuration types and the
//! loader for the fields this runtime reads.
//!
//! The loader reads `process.args` (a non-empty string list), `root.path`,
//! `process.capabilities`, `linux.namespaces` and
//! `linux.resources.oomScoreAdj`; every other field keeps its default.

use vstd::prelude::*;

use crate::error::RuntimeError;
use crate::json::{jview, jview_members, jview_seq, lemma_jview_members_props, lemma_jview_seq_props,
    parse_json, JsonValue, JsonView};
use crate::persist::read_all;
use crate::strutil::chars_eq_str;
use crate::sys::{chars_to_string, sys_close, sys_open_read, utf8_to_chars};

verus! {

#[derive(Debug, Clone, Default)]
pub struct Platform {
    pub os: String,
    pub arch: String,
}

#[derive(Debug, Clone, Copy, Default, PartialEq, Eq, Structural)]
pub struct Box {
    pub height: u64,
    pub width: u64,
}

#[derive(Debug, Clone, Default)]
pub struct User {
    pub uid: u32,
    pub gid: u32,
    pub additional_gids: Vec<u32>,
    pub username: String,
}

#[derive(Debug, Clone, Copy, PartialEq, Eq, Structural)]
pub enum LinuxRlimitType {
    RlimitCpu,
    RlimitFsize,
    RlimitData,
    RlimitStack,
    RlimitCore,
    RlimitRss,
    RlimitNproc,
    RlimitNofile,
    RlimitMemlock,
    RlimitAs,
    RlimitLocks,
    RlimitSigpending,
    RlimitMsgqueue,
    RlimitNice,
    RlimitRtprio,
    RlimitRttime,
}

#[derive(Debug, Clone, Copy)]
pub struct LinuxRlimits {
    pub typ: LinuxRlimitType,
    pub soft: u64,
    pub hard: u64,
}

/// A Linux capability, by name.
#[derive(Debug, Clone, Copy, PartialEq, Eq, Structural)]
pub enum Capability {
    CapChown,
    CapDacOverride,
    CapDacReadSearch,
    CapFowner,
    CapFsetid,
    CapKill,
    CapSetgid,
    CapSetuid,
    CapSetpcap,
    CapLinuxImmutable,
    CapNetBindService,
    CapNetBroadcast,
    CapNetAdmin,
    CapNetRaw,
    CapIpcLock,
    CapIpcOwner,
    CapSysModule,
    CapSysRawio,
    CapSysChroot,
    CapSysPtrace,
    CapSysPacct,
    CapSysAdmin,
    CapSysBoot,
    CapSysNice,
    CapSysResource,
    CapSysTime,
    CapSysTtyConfig,
    CapSyslog,
    CapMknod,
    CapLease,
    CapAuditWrite,
    CapAuditControl,
    CapAuditRead,
    CapSetfcap,
    CapMacOverride,
    CapMacAdmin,
    CapWakeAlarm,
    CapBlockSuspend,
    CapPerfmon,
    CapBpf,
    CapCheckpointRestore,
}

#[derive(Debug, Clone, Copy, PartialEq, Eq, Structural)]
pub struct LinuxCapabilityType {
    pub cap: Capability,
}

#[derive(Debug, Clone)]
pub struct LinuxCapabilities {
    pub bounding: Vec<LinuxCapabilityType>,
    pub effective: Vec<LinuxCapabilityType>,
    pub inheritable: Vec<LinuxCapabilityType>,
    pub permitted: Vec<LinuxCapabilityType>,
    pub ambient: Vec<LinuxCapabilityType>,
}

#[derive(Debug, Clone, Default)]
pub struct Process {
    pub terminal: bool,
    pub console_size: Box,
    pub user: User,
    pub args: Vec<String>,
    pub env: Vec<String>,
    pub cwd: String,
    pub capabilities: Option<LinuxCapabilities>,
    pub rlimits: Vec<LinuxRlimits>,
    pub no_new_privileges: bool,
    pub apparmor_profile: String,
    pub selinux_label: String,
}

#[derive(Debug, Clone, Default)]
pub struct Root {
    pub path: String,
    pub readonly: bool,
}

#[derive(Debug, Clone, Default)]
pub struct Mount {
    pub destination: String,
    pub typ: String,
    pub source: String,
    pub options: Vec<String>,
}

#[derive(Debug, Clone, Copy, Default)]
pub struct LinuxIDMapping {
    pub host_id: u32,
    pub container_id: u32,
    pub size: u32,
}

#[derive(Debug, Clone, Copy, PartialEq, Eq, Structural)]
pub enum LinuxDeviceType {
    B,
    C,
    U,
    P,
    A,
}

impl Default for LinuxDeviceType {
    /// The catch-all device type.
    fn default() -> (r: LinuxDeviceType)
        ensures
            r == LinuxDeviceType::A,
    {
        LinuxDeviceType::A
    }
}

#[derive(Debug, Clone)]
pub struct LinuxDeviceCgroup {
    pub allow: bool,
    pub typ: LinuxDeviceType,
    pub major: Option<i64>,
    pub minor: Option<i64>,
    pub access: String,
}

#[derive(Debug, Clone, Copy)]
pub struct LinuxMemory {
    pub limit: Option<i64>,
    pub reservation: Option<i64>,
    pub swap: Option<i64>,
    pub kernel: Option<i64>,
    pub kernel_tcp: Option<i64>,
    pub swappiness: Option<u64>,
}

#[derive(Debug, Clone)]
pub struct LinuxCPU {
    pub shares: Option<u64>,
    pub quota: Option<i64>,
    pub period: Option<u64>,
    pub realtime_runtime: Option<i64>,
    pub realtime_period: Option<u64>,
    pub cpus: String,
    pub mems: String,
}

#[derive(Debug, Clone, Copy, Default)]
pub struct LinuxPids {
    pub limit: i64,
}

#[derive(Debug, Clone, Copy)]
pub struct LinuxWeightDevice {
    pub major: i64,
    pub minor: i64,
    pub weight: Option<u16>,
    pub leaf_weight: Option<u16>,
}

#[derive(Debug, Clone, Copy, Default)]
pub struct LinuxThrottleDevice {
    pub major: i64,
    pub minor: i64,
    pub rate: u64,
}

#[derive(Debug, Clone)]
pub struct LinuxBlockIO {
    pub blkio_weight: Option<u16>,
    pub blkio_leaf_weight: Option<u16>,
    pub blkio_weight_device: Vec<LinuxWeightDevice>,
    pub blkio_throttle_read_bps_device: Vec<LinuxThrottleDevice>,
    pub blkio_throttle_write_bps_device: Vec<LinuxThrottleDevice>,
    pub blkio_throttle_read_iops_device: Vec<LinuxThrottleDevice>,
    pub blkio_throttle_write_iops_device: Vec<LinuxThrottleDevice>,
}

#[derive(Debug, Clone, Default)]
pub struct LinuxHugepageLimit {
    pub page_size: String,
    pub limit: i64,
}

#[derive(Debug, Clone, Default)]
pub struct LinuxInterfacePriority {
    pub name: String,
    pub priority: u32,
}

#[derive(Debug, Clone)]
pub struct LinuxNetwork {
    pub class_id: Option<u32>,
    pub priorities: Vec<LinuxInterfacePriority>,
}

#[derive(Debug, Clone, Default)]
pub struct LinuxResources {
    pub devices: Vec<LinuxDeviceCgroup>,
    pub disable_oom_killer: bool,
    pub oom_score_adj: Option<i32>,
    pub memory: Option<LinuxMemory>,
    pub cpu: Option<LinuxCPU>,
    pub pids: Option<LinuxPids>,
    pub block_io: Option<LinuxBlockIO>,
    pub hugepage_limits: Vec<LinuxHugepageLimit>,
    pub network: Option<LinuxNetwork>,
}

/// The kinds of Linux namespaces a container can enter or unshare.
#[derive(Debug, Clone, Copy, PartialEq, Eq, Structural)]
pub enum LinuxNamespaceType {
    Mount,
    Cgroup,
    Uts,
    Ipc,
    User,
    Pid,
    Network,
}

impl LinuxNamespaceType {
    /// The clone-flag bit of this namespace kind.
    pub open spec fn spec_bits(self) -> u64 {
        match self {
            LinuxNamespaceType::Mount => 0x00020000u64,
            LinuxNamespaceType::Cgroup => 0x02000000u64,
            LinuxNamespaceType::Uts => 0x04000000u64,
            LinuxNamespaceType::Ipc => 0x08000000u64,
            LinuxNamespaceType::User => 0x10000000u64,
            LinuxNamespaceType::Pid => 0x20000000u64,
            LinuxNamespaceType::Network => 0x40000000u64,
        }
    }

    /// The clone-flag bit of this namespace kind.
    pub fn bits(&self) -> (r: u64)
        ensures
            r == self.spec_bits(),
    {
        match self {
            LinuxNamespaceType::Mount => 0x00020000u64,
            LinuxNamespaceType::Cgroup => 0x02000000u64,
            LinuxNamespaceType::Uts => 0x04000000u64,
            LinuxNamespaceType::Ipc => 0x08000000u64,
            LinuxNamespaceType::User => 0x10000000u64,
            LinuxNamespaceType::Pid => 0x20000000u64,
            LinuxNamespaceType::Network => 0x40000000u64,
        }
    }
}

/// The clone-flag bit of the user namespace.
pub const CLONE_NEWUSER_BIT: u64 = 0x10000000;

#[derive(Debug, Clone)]
pub struct LinuxNamespace {
    pub typ: LinuxNamespaceType,
    /// A path to join an existing namespace; empty to unshare a new one.
    pub path: String,
}

#[derive(Debug, Clone)]
pub struct LinuxDevice {
    pub path: String,
    pub typ: LinuxDeviceType,
    pub major: u64,
    pub minor: u64,
    pub file_mode: Option<u32>,
    pub uid: Option<u32>,
    pub gid: Option<u32>,
}

#[derive(Debug, Clone, Copy, PartialEq, Eq, Structural)]
pub enum LinuxSeccompAction {
    ScmpActKill,
    ScmpActTrap,
    ScmpActErrno,
    ScmpActTrace,
    ScmpActAllow,
}

#[derive(Debug, Clone, Copy, PartialEq, Eq, Structural)]
pub enum Arch {
    ScmpArchNative,
    ScmpArchX86,
    ScmpArchX86_64,
    ScmpArchX32,
    ScmpArchArm,
    ScmpArchAarch64,
    ScmpArchMips,
    ScmpArchMips64,
    ScmpArchMips64n32,
    ScmpArchMipsel,
    ScmpArchMipsel64,
    ScmpArchMipsel64n32,
    ScmpArchPpc,
    ScmpArchPpc64,
    ScmpArchPpc64le,
    ScmpArchS390,
    ScmpArchS390x,
}

#[derive(Debug, Clone, Copy, PartialEq, Eq, Structural)]
pub enum LinuxSeccompOperator {
    ScmpCmpNe,
    ScmpCmpLt,
    ScmpCmpLe,
    ScmpCmpEq,
    ScmpCmpGe,
    ScmpCmpGt,
    ScmpCmpMaskedEq,
}

#[derive(Debug, Clone, Default)]
pub struct Linux {
    pub uid_mappings: Vec<LinuxIDMapping>,
    pub gid_mappings: Vec<LinuxIDMapping>,
    pub sysctl: Vec<(String, String)>,
    pub resources: Option<LinuxResources>,
    pub cgroups_path: String,
    pub namespaces: Vec<LinuxNamespace>,
    pub devices: Vec<LinuxDevice>,
    pub rootfs_propagation: String,
    pub masked_paths: Vec<String>,
    pub readonly_paths: Vec<String>,
    pub mount_label: String,
}

#[derive(Debug, Clone)]
pub struct Spec {
    pub version: String,
    pub platform: Option<Platform>,
    pub process: Process,
    pub root: Root,
    pub hostname: String,
    pub mounts: Vec<Mount>,
    pub annotations: Vec<(String, String)>,
    pub linux: Option<Linux>,
}

// ---------------------------------------------------------------------------
// The namespace partition used by the bootstrap
// ---------------------------------------------------------------------------
/// The clone flags of the namespaces to unshare: those given without a
/// path.
pub open spec fn spec_clone_flags(ns: Seq<LinuxNamespace>) -> u64
    decreases ns.len(),
{
    if ns.len() == 0 {
        0u64
    } else {
        spec_clone_flags(ns.drop_last()) | (if ns.last().path@.len() == 0 {
            ns.last().typ.spec_bits()
        } else {
            0u64
        })
    }
}

/// The namespaces to join: bit and path of those given with a path, in
/// order.
pub open spec fn spec_enter_list(ns: Seq<LinuxNamespace>) -> Seq<(u64, Seq<char>)>
    decreases ns.len(),
{
    if ns.len() == 0 {
        Seq::empty()
    } else {
        spec_enter_list(ns.drop_last()).add(
            if ns.last().path@.len() != 0 {
                seq![(ns.last().typ.spec_bits(), ns.last().path@)]
            } else {
                Seq::empty()
            },
        )
    }
}

/// Splits the configured namespaces: a mask of flags to unshare, and the
/// (flag, path) pairs to join, in configuration order.
pub fn partition_namespaces(ns: &Vec<LinuxNamespace>) -> (r: (u64, Vec<(u64, String)>))
    ensures
        r.0 == spec_clone_flags(ns@),
        r.1@.len() == spec_enter_list(ns@).len(),
        forall|k: int|
            0 <= k < r.1@.len() ==> ((#[trigger] r.1@[k]).0, r.1@[k].1@) == spec_enter_list(ns@)[k],
{
    let n = ns.len();
    let mut cf: u64 = 0;
    let mut to_enter: Vec<(u64, String)> = Vec::new();
    proof {
        assert(ns@.subrange(0, 0) =~= Seq::<LinuxNamespace>::empty());
    }
    let mut i: usize = 0;
    while i < n
        invariant
            i <= n,
            n == ns@.len(),
            cf == spec_clone_flags(ns@.subrange(0, i as int)),
            to_enter@.len() == spec_enter_list(ns@.subrange(0, i as int)).len(),
            forall|k: int|
                0 <= k < to_enter@.len() ==> ((#[trigger] to_enter@[k]).0, to_enter@[k].1@)
                    == spec_enter_list(ns@.subrange(0, i as int))[k],
        decreases n - i,
    {
        let entry = &ns[i];
        let ghost pre = ns@.subrange(0, i as int);
        let ghost post = ns@.subrange(0, i as int + 1);
        proof {
            assert(post.drop_last() =~= pre);
            assert(post.last() == ns@[i as int]);
        }
        if entry.path.as_str().is_empty() {
            cf = cf | entry.typ.bits();
            proof {
                assert(spec_enter_list(post) =~= spec_enter_list(pre));
            }
        } else {
            to_enter.push((entry.typ.bits(), entry.path.clone()));
            proof {
                assert(spec_enter_list(post) =~= spec_enter_list(pre).push(
                    (ns@[i as int].typ.spec_bits(), ns@[i as int].path@),
                ));
                assert(cf | 0u64 == cf) by (bit_vector);
            }
        }
        i = i + 1;
    }
    proof {
        assert(ns@.subrange(0, n as int) =~= ns@);
    }
    (cf, to_enter)
}

/// Clears the user-namespace bit: the user namespace is entered in the
/// first child, before any other namespace work.
pub fn flags_without_user(cf: u64) -> (r: u64)
    ensures
        r == cf & !CLONE_NEWUSER_BIT,
{
    cf & !CLONE_NEWUSER_BIT
}

// ---------------------------------------------------------------------------
// Capability names
// ---------------------------------------------------------------------------
/// The capability a configuration name stands for.
pub open spec fn spec_cap_of(n: Seq<char>) -> Option<Capability> {
    if n == "CAP_CHOWN"@ {
        Some(Capability::CapChown)
    } else if n == "CAP_DAC_OVERRIDE"@ {
        Some(Capability::CapDacOverride)
    } else if n == "CAP_DAC_READ_SEARCH"@ {
        Some(Capability::CapDacReadSearch)
    } else if n == "CAP_FOWNER"@ {
        Some(Capability::CapFowner)
    } else if n == "CAP_FSETID"@ {
        Some(Capability::CapFsetid)
    } else if n == "CAP_KILL"@ {
        Some(Capability::CapKill)
    } else if n == "CAP_SETGID"@ {
        Some(Capability::CapSetgid)
    } else if n == "CAP_SETUID"@ {
        Some(Capability::CapSetuid)
    } else if n == "CAP_SETPCAP"@ {
        Some(Capability::CapSetpcap)
    } else if n == "CAP_LINUX_IMMUTABLE"@ {
        Some(Capability::CapLinuxImmutable)
    } else if n == "CAP_NET_BIND_SERVICE"@ {
        Some(Capability::CapNetBindService)
    } else if n == "CAP_NET_BROADCAST"@ {
        Some(Capability::CapNetBroadcast)
    } else if n == "CAP_NET_ADMIN"@ {
        Some(Capability::CapNetAdmin)
    } else if n == "CAP_NET_RAW"@ {
        Some(Capability::CapNetRaw)
    } else if n == "CAP_IPC_LOCK"@ {
        Some(Capability::CapIpcLock)
    } else if n == "CAP_IPC_OWNER"@ {
        Some(Capability::CapIpcOwner)
    } else if n == "CAP_SYS_MODULE"@ {
        Some(Capability::CapSysModule)
    } else if n == "CAP_SYS_RAWIO"@ {
        Some(Capability::CapSysRawio)
    } else if n == "CAP_SYS_CHROOT"@ {
        Some(Capability::CapSysChroot)
    } else if n == "CAP_SYS_PTRACE"@ {
        Some(Capability::CapSysPtrace)
    } else if n == "CAP_SYS_PACCT"@ {
        Some(Capability::CapSysPacct)
    } else if n == "CAP_SYS_ADMIN"@ {
        Some(Capability::CapSysAdmin)
    } else if n == "CAP_SYS_BOOT"@ {
        Some(Capability::CapSysBoot)
    } else if n == "CAP_SYS_NICE"@ {
        Some(Capability::CapSysNice)
    } else if n == "CAP_SYS_RESOURCE"@ {
        Some(Capability::CapSysResource)
    } else if n == "CAP_SYS_TIME"@ {
        Some(Capability::CapSysTime)
    } else if n == "CAP_SYS_TTYCONFIG"@ {
        Some(Capability::CapSysTtyConfig)
    } else if n == "CAP_SYSLOG"@ {
        Some(Capability::CapSyslog)
    } else if n == "CAP_MKNOD"@ {
        Some(Capability::CapMknod)
    } else if n == "CAP_LEASE"@ {
        Some(Capability::CapLease)
    } else if n == "CAP_AUDIT_WRITE"@ {
        Some(Capability::CapAuditWrite)
    } else if n == "CAP_AUDIT_CONTROL"@ {
        Some(Capability::CapAuditControl)
    } else if n == "CAP_AUDIT_READ"@ {
        Some(Capability::CapAuditRead)
    } else if n == "CAP_SETFCAP"@ {
        Some(Capability::CapSetfcap)
    } else if n == "CAP_MAC_OVERRIDE"@ {
        Some(Capability::CapMacOverride)
    } else if n == "CAP_MAC_ADMIN"@ {
        Some(Capability::CapMacAdmin)
    } else if n == "CAP_WAKE_ALARM"@ {
        Some(Capability::CapWakeAlarm)
    } else if n == "CAP_BLOCK_SUSPEND"@ {
        Some(Capability::CapBlockSuspend)
    } else if n == "CAP_PERFMON"@ {
        Some(Capability::CapPerfmon)
    } else if n == "CAP_BPF"@ {
        Some(Capability::CapBpf)
    } else if n == "CAP_CHECKPOINT_RESTORE"@ {
        Some(Capability::CapCheckpointRestore)
    } else {
        None
    }
}

/// Resolves one capability name.
pub fn capability_from_name(n: &Vec<char>) -> (r: Option<Capability>)
    ensures
        r == spec_cap_of(n@),
{
    if chars_eq_str(n, "CAP_CHOWN") {
        Some(Capability::CapChown)
    } else if chars_eq_str(n, "CAP_DAC_OVERRIDE") {
        Some(Capability::CapDacOverride)
    } else if chars_eq_str(n, "CAP_DAC_READ_SEARCH") {
        Some(Capability::CapDacReadSearch)
    } else if chars_eq_str(n, "CAP_FOWNER") {
        Some(Capability::CapFowner)
    } else if chars_eq_str(n, "CAP_FSETID") {
        Some(Capability::CapFsetid)
    } else if chars_eq_str(n, "CAP_KILL") {
        Some(Capability::CapKill)
    } else if chars_eq_str(n, "CAP_SETGID") {
        Some(Capability::CapSetgid)
    } else if chars_eq_str(n, "CAP_SETUID") {
        Some(Capability::CapSetuid)
    } else if chars_eq_str(n, "CAP_SETPCAP") {
        Some(Capability::CapSetpcap)
    } else if chars_eq_str(n, "CAP_LINUX_IMMUTABLE") {
        Some(Capability::CapLinuxImmutable)
    } else if chars_eq_str(n, "CAP_NET_BIND_SERVICE") {
        Some(Capability::CapNetBindService)
    } else if chars_eq_str(n, "CAP_NET_BROADCAST") {
        Some(Capability::CapNetBroadcast)
    } else if chars_eq_str(n, "CAP_NET_ADMIN") {
        Some(Capability::CapNetAdmin)
    } else if chars_eq_str(n, "CAP_NET_RAW") {
        Some(Capability::CapNetRaw)
    } else if chars_eq_str(n, "CAP_IPC_LOCK") {
        Some(Capability::CapIpcLock)
    } else if chars_eq_str(n, "CAP_IPC_OWNER") {
        Some(Capability::CapIpcOwner)
    } else if chars_eq_str(n, "CAP_SYS_MODULE") {
        Some(Capability::CapSysModule)
    } else if chars_eq_str(n, "CAP_SYS_RAWIO") {
        Some(Capability::CapSysRawio)
    } else if chars_eq_str(n, "CAP_SYS_CHROOT") {
        Some(Capability::CapSysChroot)
    } else if chars_eq_str(n, "CAP_SYS_PTRACE") {
        Some(Capability::CapSysPtrace)
    } else if chars_eq_str(n, "CAP_SYS_PACCT") {
        Some(Capability::CapSysPacct)
    } else if chars_eq_str(n, "CAP_SYS_ADMIN") {
        Some(Capability::CapSysAdmin)
    } else if chars_eq_str(n, "CAP_SYS_BOOT") {
        Some(Capability::CapSysBoot)
    } else if chars_eq_str(n, "CAP_SYS_NICE") {
        Some(Capability::CapSysNice)
    } else if chars_eq_str(n, "CAP_SYS_RESOURCE") {
        Some(Capability::CapSysResource)
    } else if chars_eq_str(n, "CAP_SYS_TIME") {
        Some(Capability::CapSysTime)
    } else if chars_eq_str(n, "CAP_SYS_TTYCONFIG") {
        Some(Capability::CapSysTtyConfig)
    } else if chars_eq_str(n, "CAP_SYSLOG") {
        Some(Capability::CapSyslog)
    } else if chars_eq_str(n, "CAP_MKNOD") {
        Some(Capability::CapMknod)
    } else if chars_eq_str(n, "CAP_LEASE") {
        Some(Capability::CapLease)
    } else if chars_eq_str(n, "CAP_AUDIT_WRITE") {
        Some(Capability::CapAuditWrite)
    } else if chars_eq_str(n, "CAP_AUDIT_CONTROL") {
        Some(Capability::CapAuditControl)
    } else if chars_eq_str(n, "CAP_AUDIT_READ") {
        Some(Capability::CapAuditRead)
    } else if chars_eq_str(n, "CAP_SETFCAP") {
        Some(Capability::CapSetfcap)
    } else if chars_eq_str(n, "CAP_MAC_OVERRIDE") {
        Some(Capability::CapMacOverride)
    } else if chars_eq_str(n, "CAP_MAC_ADMIN") {
        Some(Capability::CapMacAdmin)
    } else if chars_eq_str(n, "CAP_WAKE_ALARM") {
        Some(Capability::CapWakeAlarm)
    } else if chars_eq_str(n, "CAP_BLOCK_SUSPEND") {
        Some(Capability::CapBlockSuspend)
    } else if chars_eq_str(n, "CAP_PERFMON") {
        Some(Capability::CapPerfmon)
    } else if chars_eq_str(n, "CAP_BPF") {
        Some(Capability::CapBpf)
    } else if chars_eq_str(n, "CAP_CHECKPOINT_RESTORE") {
        Some(Capability::CapCheckpointRestore)
    } else {
        None
    }
}

// ---------------------------------------------------------------------------
// Reading the configuration document
// ---------------------------------------------------------------------------
/// The first member of the list with the given key.
pub open spec fn find_key(ms: Seq<(Seq<char>, JsonView)>, key: Seq<char>) -> Option<JsonView>
    decreases ms.len(),
{
    if ms.len() == 0 {
        None
    } else if ms[0].0 == key {
        Some(ms[0].1)
    } else {
        find_key(ms.drop_first(), key)
    }
}

/// The member of an object; anything that is no object has none.
pub open spec fn member_of(v: JsonView, key: Seq<char>) -> Option<JsonView> {
    match v {
        JsonView::Obj(ms) => find_key(ms, key),
        _ => None,
    }
}

/// Finds the first member with the given key.
fn find_member<'a>(ms: &'a Vec<(Vec<char>, JsonValue)>, key: &str) -> (r: Option<&'a JsonValue>)
    ensures
        match r {
            None => find_key(jview_members(ms@), key@) is None,
            Some(v) => find_key(jview_members(ms@), key@) == Some(jview(*v)),
        },
{
    let n = ms.len();
    proof {
        lemma_jview_members_props(ms@);
        assert(jview_members(ms@).subrange(0, jview_members(ms@).len() as int) =~= jview_members(
            ms@,
        ));
    }
    let ghost jm = jview_members(ms@);
    let mut i: usize = 0;
    while i < n
        invariant
            i <= n,
            n == ms@.len(),
            jm == jview_members(ms@),
            jm.len() == n,
            find_key(jm, key@) == find_key(jm.subrange(i as int, n as int), key@),
        decreases n - i,
    {
        proof {
            lemma_jview_members_props(ms@);
            assert(jm.subrange(i as int, n as int)[0] == jm[i as int]);
            assert(jm[i as int] == (ms@[i as int].0@, jview(ms@[i as int].1)));
        }
        if chars_eq_str(&ms[i].0, key) {
            return Some(&ms[i].1);
        }
        proof {
            assert(jm.subrange(i as int, n as int).drop_first() =~= jm.subrange(
                i as int + 1,
                n as int,
            ));
        }
        i = i + 1;
    }
    proof {
        assert(jm.subrange(n as int, n as int) =~= Seq::<(Seq<char>, JsonView)>::empty());
    }
    None
}

/// The shapes of a list of strings.
pub open spec fn strings_view(a: Seq<String>) -> Seq<Seq<char>> {
    Seq::new(a.len(), |i: int| a[i]@)
}

/// The strings of an array whose items are all strings.
pub open spec fn str_list_of(items: Seq<JsonView>) -> Option<Seq<Seq<char>>>
    decreases items.len(),
{
    if items.len() == 0 {
        Some(Seq::empty())
    } else {
        match items[0] {
            JsonView::Str(s) => match str_list_of(items.drop_first()) {
                None => None,
                Some(r) => Some(seq![s].add(r)),
            },
            _ => None,
        }
    }
}

/// Reads the strings of an array from position `i` on.
fn str_list_from(items: &Vec<JsonValue>, i: usize) -> (r: Option<Vec<String>>)
    requires
        i <= items@.len(),
    ensures
        ({
            let tail = jview_seq(items@).subrange(i as int, items@.len() as int);
            match r {
                None => str_list_of(tail) is None,
                Some(out) => str_list_of(tail) == Some(strings_view(out@)),
            }
        }),
    decreases items@.len() - i,
{
    let ghost tail = jview_seq(items@).subrange(i as int, items@.len() as int);
    proof {
        lemma_jview_seq_props(items@);
    }
    if i == items.len() {
        let out: Vec<String> = Vec::new();
        proof {
            assert(tail =~= Seq::<JsonView>::empty());
            assert(strings_view(out@) =~= Seq::<Seq<char>>::empty());
        }
        return Some(out);
    }
    proof {
        assert(tail[0] == jview(items@[i as int]));
    }
    match &items[i] {
        JsonValue::Str(cs) => {
            let s = chars_to_string(cs);
            match str_list_from(items, i + 1) {
                None => {
                    proof {
                        assert(tail.drop_first() =~= jview_seq(items@).subrange(
                            i as int + 1,
                            items@.len() as int,
                        ));
                    }
                    None
                },
                Some(mut out) => {
                    let ghost out0 = out@;
                    out.insert(0, s);
                    proof {
                        assert(tail.drop_first() =~= jview_seq(items@).subrange(
                            i as int + 1,
                            items@.len() as int,
                        ));
                        assert(strings_view(out@) =~= seq![s@].add(strings_view(out0)));
                    }
                    Some(out)
                },
            }
        },
        _ => None,
    }
}

/// The shapes of a list of capabilities.
pub open spec fn caps_view(a: Seq<LinuxCapabilityType>) -> Seq<Capability> {
    Seq::new(a.len(), |i: int| a[i].cap)
}

/// The capabilities of an array whose items are all known capability
/// names.
pub open spec fn cap_list_of(items: Seq<JsonView>) -> Option<Seq<Capability>>
    decreases items.len(),
{
    if items.len() == 0 {
        Some(Seq::empty())
    } else {
        match items[0] {
            JsonView::Str(s) => match spec_cap_of(s) {
                None => None,
                Some(c) => match cap_list_of(items.drop_first()) {
                    None => None,
                    Some(r) => Some(seq![c].add(r)),
                },
            },
            _ => None,
        }
    }
}

/// Reads the capabilities of an array from position `i` on.
fn cap_list_from(items: &Vec<JsonValue>, i: usize) -> (r: Option<Vec<LinuxCapabilityType>>)
    requires
        i <= items@.len(),
    ensures
        ({
            let tail = jview_seq(items@).subrange(i as int, items@.len() as int);
            match r {
                None => cap_list_of(tail) is None,
                Some(out) => cap_list_of(tail) == Some(caps_view(out@)),
            }
        }),
    decreases items@.len() - i,
{
    let ghost tail = jview_seq(items@).subrange(i as int, items@.len() as int);
    proof {
        lemma_jview_seq_props(items@);
    }
    if i == items.len() {
        let out: Vec<LinuxCapabilityType> = Vec::new();
        proof {
            assert(tail =~= Seq::<JsonView>::empty());
            assert(caps_view(out@) =~= Seq::<Capability>::empty());
        }
        return Some(out);
    }
    proof {
        assert(tail[0] == jview(items@[i as int]));
        assert(tail.drop_first() =~= jview_seq(items@).subrange(i as int + 1, items@.len() as int));
    }
    match &items[i] {
        JsonValue::Str(cs) => match capability_from_name(cs) {
            None => None,
            Some(c) => match cap_list_from(items, i + 1) {
                None => None,
                Some(mut out) => {
                    let ghost out0 = out@;
                    out.insert(0, LinuxCapabilityType { cap: c });
                    proof {
                        assert(caps_view(out@) =~= seq![c].add(caps_view(out0)));
                    }
                    Some(out)
                },
            },
        },
        _ => None,
    }
}

/// The shape of a configured capability record.
pub struct CapsView {
    pub bounding: Seq<Capability>,
    pub effective: Seq<Capability>,
    pub inheritable: Seq<Capability>,
    pub permitted: Seq<Capability>,
    pub ambient: Seq<Capability>,
}

/// One named capability set of an object: an absent or null member is an
/// empty set; an array is read as names; anything else is rejected.
pub open spec fn cap_set_of(ms: Seq<(Seq<char>, JsonView)>, key: Seq<char>) -> Option<
    Seq<Capability>,
> {
    match find_key(ms, key) {
        None => Some(Seq::empty()),
        Some(JsonView::Null) => Some(Seq::empty()),
        Some(JsonView::Arr(items)) => cap_list_of(items),
        Some(_) => None,
    }
}

/// Reads one named capability set of an object.
fn cap_set_from(ms: &Vec<(Vec<char>, JsonValue)>, key: &str) -> (r: Option<
    Vec<LinuxCapabilityType>,
>)
    ensures
        match r {
            None => cap_set_of(jview_members(ms@), key@) is None,
            Some(out) => cap_set_of(jview_members(ms@), key@) == Some(caps_view(out@)),
        },
{
    match find_member(ms, key) {
        None => {
            let out: Vec<LinuxCapabilityType> = Vec::new();
            proof {
                assert(caps_view(out@) =~= Seq::<Capability>::empty());
            }
            Some(out)
        },
        Some(v) => match v {
            JsonValue::Null => {
                let out: Vec<LinuxCapabilityType> = Vec::new();
                proof {
                    assert(caps_view(out@) =~= Seq::<Capability>::empty());
                }
                Some(out)
            },
            JsonValue::Arr(items) => {
                proof {
                    lemma_jview_seq_props(items@);
                    assert(jview_seq(items@).subrange(0, items@.len() as int) =~= jview_seq(
                        items@,
                    ));
                }
                cap_list_from(items, 0)
            },
            _ => None,
        },
    }
}

/// What the capabilities member stands for: null means none given; an
/// array fills all five sets alike; an object names each set.
pub open spec fn caps_of(v: JsonView) -> Option<Option<CapsView>> {
    match v {
        JsonView::Null => Some(None),
        JsonView::Arr(items) => match cap_list_of(items) {
            None => None,
            Some(cs) => Some(
                Some(
                    CapsView {
                        bounding: cs,
                        effective: cs,
                        inheritable: cs,
                        permitted: cs,
                        ambient: cs,
                    },
                ),
            ),
        },
        JsonView::Obj(ms) => match (
            cap_set_of(ms, "bounding"@),
            cap_set_of(ms, "effective"@),
            cap_set_of(ms, "inheritable"@),
            cap_set_of(ms, "permitted"@),
            cap_set_of(ms, "ambient"@),
        ) {
            (Some(b), Some(e), Some(i), Some(p), Some(a)) => Some(
                Some(
                    CapsView {
                        bounding: b,
                        effective: e,
                        inheritable: i,
                        permitted: p,
                        ambient: a,
                    },
                ),
            ),
            _ => None,
        },
        _ => None,
    }
}

/// The shape of an optional capability record.
pub open spec fn caps_opt_view(c: Option<LinuxCapabilities>) -> Option<CapsView> {
    match c {
        None => None,
        Some(c) => Some(
            CapsView {
                bounding: caps_view(c.bounding@),
                effective: caps_view(c.effective@),
                inheritable: caps_view(c.inheritable@),
                permitted: caps_view(c.permitted@),
                ambient: caps_view(c.ambient@),
            },
        ),
    }
}

/// Reads the capabilities member.
pub fn caps_from_json(v: &JsonValue) -> (r: Result<Option<LinuxCapabilities>, RuntimeError>)
    ensures
        match r {
            Ok(c) => caps_of(jview(*v)) == Some(caps_opt_view(c)),
            Err(_) => caps_of(jview(*v)) is None,
        },
        r is Err ==> r matches Err(RuntimeError::Spec(_)),
{
    match v {
        JsonValue::Null => Ok(None),
        JsonValue::Arr(items) => {
            proof {
                lemma_jview_seq_props(items@);
                assert(jview_seq(items@).subrange(0, items@.len() as int) =~= jview_seq(items@));
            }
            match cap_list_from(items, 0) {
                None => Err(RuntimeError::Spec(String::from_str("bad capability list"))),
                Some(caps) => Ok(
                    Some(
                        LinuxCapabilities {
                            bounding: caps.clone(),
                            effective: caps.clone(),
                            inheritable: caps.clone(),
                            permitted: caps.clone(),
                            ambient: caps,
                        },
                    ),
                ),
            }
        },
        JsonValue::Obj(ms) => {
            let b = match cap_set_from(ms, "bounding") {
                Some(x) => x,
                None => {
                    return Err(RuntimeError::Spec(String::from_str("bad capability set")));
                },
            };
            let e = match cap_set_from(ms, "effective") {
                Some(x) => x,
                None => {
                    return Err(RuntimeError::Spec(String::from_str("bad capability set")));
                },
            };
            let i = match cap_set_from(ms, "inheritable") {
                Some(x) => x,
                None => {
                    return Err(RuntimeError::Spec(String::from_str("bad capability set")));
                },
            };
            let p = match cap_set_from(ms, "permitted") {
                Some(x) => x,
                None => {
                    return Err(RuntimeError::Spec(String::from_str("bad capability set")));
                },
            };
            let a = match cap_set_from(ms, "ambient") {
                Some(x) => x,
                None => {
                    return Err(RuntimeError::Spec(String::from_str("bad capability set")));
                },
            };
            Ok(
                Some(
                    LinuxCapabilities {
                        bounding: b,
                        effective: e,
                        inheritable: i,
                        permitted: p,
                        ambient: a,
                    },
                ),
            )
        },
        _ => Err(RuntimeError::Spec(String::from_str("bad capabilities"))),
    }
}

/// The namespace kind a configuration word stands for.
pub open spec fn ns_type_of(s: Seq<char>) -> Option<LinuxNamespaceType> {
    if s == "mount"@ {
        Some(LinuxNamespaceType::Mount)
    } else if s == "cgroup"@ {
        Some(LinuxNamespaceType::Cgroup)
    } else if s == "uts"@ {
        Some(LinuxNamespaceType::Uts)
    } else if s == "ipc"@ {
        Some(LinuxNamespaceType::Ipc)
    } else if s == "user"@ {
        Some(LinuxNamespaceType::User)
    } else if s == "pid"@ {
        Some(LinuxNamespaceType::Pid)
    } else if s == "network"@ {
        Some(LinuxNamespaceType::Network)
    } else {
        None
    }
}

/// Resolves one namespace kind word.
fn ns_type_from_chars(s: &Vec<char>) -> (r: Option<LinuxNamespaceType>)
    ensures
        r == ns_type_of(s@),
{
    if chars_eq_str(s, "mount") {
        Some(LinuxNamespaceType::Mount)
    } else if chars_eq_str(s, "cgroup") {
        Some(LinuxNamespaceType::Cgroup)
    } else if chars_eq_str(s, "uts") {
        Some(LinuxNamespaceType::Uts)
    } else if chars_eq_str(s, "ipc") {
        Some(LinuxNamespaceType::Ipc)
    } else if chars_eq_str(s, "user") {
        Some(LinuxNamespaceType::User)
    } else if chars_eq_str(s, "pid") {
        Some(LinuxNamespaceType::Pid)
    } else if chars_eq_str(s, "network") {
        Some(LinuxNamespaceType::Network)
    } else {
        None
    }
}

/// The shapes of a list of namespaces.
pub open spec fn ns_view(a: Seq<LinuxNamespace>) -> Seq<(LinuxNamespaceType, Seq<char>)> {
    Seq::new(a.len(), |i: int| (a[i].typ, a[i].path@))
}

/// The namespaces of an array of `{type, path}` objects: `type` must name
/// a namespace kind; a missing `path` is an empty one.
pub open spec fn ns_list_of(items: Seq<JsonView>) -> Option<Seq<(LinuxNamespaceType, Seq<char>)>>
    decreases items.len(),
{
    if items.len() == 0 {
        Some(Seq::empty())
    } else {
        match items[0] {
            JsonView::Obj(ms) => match find_key(ms, "type"@) {
                Some(JsonView::Str(t)) => match ns_type_of(t) {
                    Some(typ) => {
                        let path = match find_key(ms, "path"@) {
                            None => Some(Seq::<char>::empty()),
                            Some(JsonView::Str(p)) => Some(p),
                            Some(_) => None,
                        };
                        match path {
                            None => None,
                            Some(p) => match ns_list_of(items.drop_first()) {
                                None => None,
                                Some(r) => Some(seq![(typ, p)].add(r)),
                            },
                        }
                    },
                    None => None,
                },
                _ => None,
            },
            _ => None,
        }
    }
}

/// Reads the namespaces of an array from position `i` on.
fn ns_list_from(items: &Vec<JsonValue>, i: usize) -> (r: Option<Vec<LinuxNamespace>>)
    requires
        i <= items@.len(),
    ensures
        ({
            let tail = jview_seq(items@).subrange(i as int, items@.len() as int);
            match r {
                None => ns_list_of(tail) is None,
                Some(out) => ns_list_of(tail) == Some(ns_view(out@)),
            }
        }),
    decreases items@.len() - i,
{
    let ghost tail = jview_seq(items@).subrange(i as int, items@.len() as int);
    proof {
        lemma_jview_seq_props(items@);
    }
    if i == items.len() {
        let out: Vec<LinuxNamespace> = Vec::new();
        proof {
            assert(tail =~= Seq::<JsonView>::empty());
            assert(ns_view(out@) =~= Seq::<(LinuxNamespaceType, Seq<char>)>::empty());
        }
        return Some(out);
    }
    proof {
        assert(tail[0] == jview(items@[i as int]));
        assert(tail.drop_first() =~= jview_seq(items@).subrange(i as int + 1, items@.len() as int));
    }
    match &items[i] {
        JsonValue::Obj(ms) => {
            let t = match find_member(ms, "type") {
                Some(JsonValue::Str(t)) => t,
                _ => {
                    return None;
                },
            };
            let typ = match ns_type_from_chars(t) {
                Some(typ) => typ,
                None => {
                    return None;
                },
            };
            let path: String = match find_member(ms, "path") {
                None => String::new(),
                Some(JsonValue::Str(p)) => chars_to_string(p),
                Some(_) => {
                    return None;
                },
            };
            match ns_list_from(items, i + 1) {
                None => None,
                Some(mut out) => {
                    let ghost out0 = out@;
                    let entry = LinuxNamespace { typ, path };
                    let ghost pv = entry.path@;
                    out.insert(0, entry);
                    proof {
                        assert(ns_view(out@) =~= seq![(typ, pv)].add(ns_view(out0)));
                    }
                    Some(out)
                },
            }
        },
        _ => None,
    }
}

/// The shape of the configuration fields the runtime reads.
pub struct ConfigView {
    pub args: Seq<Seq<char>>,
    pub root_path: Seq<char>,
    pub namespaces: Seq<(LinuxNamespaceType, Seq<char>)>,
    pub oom_score_adj: Option<int>,
    pub capabilities: Option<CapsView>,
}

/// What the whole configuration document stands for: `process.args` must
/// be a non-empty string list and `root.path` a string; the capability,
/// namespace and oom-score members must have the shapes above where
/// present.
pub open spec fn config_of(v: JsonView) -> Option<ConfigView> {
    match member_of(v, "process"@) {
        Some(p) => match member_of(p, "args"@) {
            Some(JsonView::Arr(items)) => match str_list_of(items) {
                Some(args) => if args.len() >= 1 {
                    match member_of(v, "root"@) {
                        Some(rt) => match member_of(rt, "path"@) {
                            Some(JsonView::Str(path)) => {
                                let caps = match member_of(p, "capabilities"@) {
                                    None => Some(None),
                                    Some(cv) => caps_of(cv),
                                };
                                match caps {
                                    None => None,
                                    Some(co) => match linux_of(v) {
                                        None => None,
                                        Some((nss, oom)) => Some(
                                            ConfigView {
                                                args,
                                                root_path: path,
                                                namespaces: nss,
                                                oom_score_adj: oom,
                                                capabilities: co,
                                            },
                                        ),
                                    },
                                }
                            },
                            _ => None,
                        },
                        None => None,
                    }
                } else {
                    None
                },
                None => None,
            },
            _ => None,
        },
        None => None,
    }
}

/// The namespaces and oom score of the `linux` member: absent means none
/// of either.
pub open spec fn linux_of(v: JsonView) -> Option<
    (Seq<(LinuxNamespaceType, Seq<char>)>, Option<int>),
> {
    match member_of(v, "linux"@) {
        None => Some((Seq::empty(), None)),
        Some(l) => {
            if !(l is Obj) {
                None
            } else {
                let nss = match member_of(l, "namespaces"@) {
                    None => Some(Seq::<(LinuxNamespaceType, Seq<char>)>::empty()),
                    Some(JsonView::Arr(items)) => ns_list_of(items),
                    Some(_) => None,
                };
                let oom = match member_of(l, "resources"@) {
                    None => Some(None),
                    Some(r) => if !(r is Obj) {
                        None
                    } else {
                        match member_of(r, "oomScoreAdj"@) {
                            None => Some(None),
                            Some(JsonView::Null) => Some(None),
                            Some(JsonView::Int(n)) => if i32::MIN <= n <= i32::MAX {
                                Some(Some(n))
                            } else {
                                None
                            },
                            Some(_) => None,
                        }
                    },
                };
                match (nss, oom) {
                    (Some(nss), Some(oom)) => Some((nss, oom)),
                    _ => None,
                }
            }
        },
    }
}

/// The namespaces a loaded configuration holds.
pub open spec fn sp_namespaces(sp: Spec) -> Seq<(LinuxNamespaceType, Seq<char>)> {
    match sp.linux {
        None => Seq::empty(),
        Some(l) => ns_view(l.namespaces@),
    }
}

/// The oom score a loaded configuration holds.
pub open spec fn sp_oom(sp: Spec) -> Option<int> {
    match sp.linux {
        None => None,
        Some(l) => match l.resources {
            None => None,
            Some(r) => match r.oom_score_adj {
                None => None,
                Some(n) => Some(n as int),
            },
        },
    }
}

/// Builds a configuration from a parsed document.  The fields the runtime
/// reads are taken exactly as `config_of` says; everything else keeps its
/// default.
pub fn config_from_json(v: &JsonValue) -> (r: Result<Spec, RuntimeError>)
    ensures
        r matches Ok(sp) ==> config_of(jview(*v)) matches Some(cv) && strings_view(
            sp.process.args@,
        ) == cv.args && sp.root.path@ == cv.root_path && sp_namespaces(sp) == cv.namespaces
            && sp_oom(sp) == cv.oom_score_adj && caps_opt_view(sp.process.capabilities)
            == cv.capabilities,
        r matches Ok(sp) ==> sp.process.args@.len() >= 1,
        r is Err ==> config_of(jview(*v)) is None && r matches Err(RuntimeError::Spec(_)),
{
    let top = match v {
        JsonValue::Obj(ms) => ms,
        _ => {
            return Err(RuntimeError::Spec(String::from_str("configuration is no object")));
        },
    };
    let p = match find_member(top, "process") {
        Some(JsonValue::Obj(pms)) => pms,
        Some(_) => {
            return Err(RuntimeError::Spec(String::from_str("process is no object")));
        },
        None => {
            return Err(RuntimeError::Spec(String::from_str("process is missing")));
        },
    };
    let args = match find_member(p, "args") {
        Some(JsonValue::Arr(items)) => {
            proof {
                lemma_jview_seq_props(items@);
                assert(jview_seq(items@).subrange(0, items@.len() as int) =~= jview_seq(items@));
            }
            match str_list_from(items, 0) {
                Some(a) => a,
                None => {
                    return Err(RuntimeError::Spec(String::from_str("bad args")));
                },
            }
        },
        _ => {
            return Err(RuntimeError::Spec(String::from_str("args is missing")));
        },
    };
    if args.len() == 0 {
        return Err(RuntimeError::Spec(String::from_str("args is empty")));
    }
    let root_path = match find_member(top, "root") {
        Some(JsonValue::Obj(rms)) => match find_member(rms, "path") {
            Some(JsonValue::Str(cs)) => chars_to_string(cs),
            _ => {
                return Err(RuntimeError::Spec(String::from_str("root.path is missing")));
            },
        },
        Some(_) => {
            return Err(RuntimeError::Spec(String::from_str("root is no object")));
        },
        None => {
            return Err(RuntimeError::Spec(String::from_str("root is missing")));
        },
    };
    let capabilities = match find_member(p, "capabilities") {
        None => None,
        Some(cv) => match caps_from_json(cv) {
            Ok(c) => c,
            Err(e) => {
                return Err(e);
            },
        },
    };
    let linux: Option<Linux> = match find_member(top, "linux") {
        None => None,
        Some(JsonValue::Obj(lms)) => {
            let namespaces = match find_member(lms, "namespaces") {
                None => Vec::new(),
                Some(JsonValue::Arr(items)) => {
                    proof {
                        lemma_jview_seq_props(items@);
                        assert(jview_seq(items@).subrange(0, items@.len() as int) =~= jview_seq(
                            items@,
                        ));
                    }
                    match ns_list_from(items, 0) {
                        Some(nss) => nss,
                        None => {
                            return Err(RuntimeError::Spec(String::from_str("bad namespaces")));
                        },
                    }
                },
                Some(_) => {
                    return Err(RuntimeError::Spec(String::from_str("bad namespaces")));
                },
            };
            let resources: Option<LinuxResources> = match find_member(lms, "resources") {
                None => None,
                Some(JsonValue::Obj(rms)) => {
                    let oom: Option<i32> = match find_member(rms, "oomScoreAdj") {
                        None => None,
                        Some(JsonValue::Null) => None,
                        Some(JsonValue::Int(n)) => {
                            let n = *n;
                            if n < i32::MIN as i64 || n > i32::MAX as i64 {
                                return Err(
                                    RuntimeError::Spec(String::from_str("oom score out of range")),
                                );
                            }
                            Some(n as i32)
                        },
                        Some(_) => {
                            return Err(RuntimeError::Spec(String::from_str("bad oom score")));
                        },
                    };
                    Some(
                        LinuxResources {
                            devices: Vec::new(),
                            disable_oom_killer: false,
                            oom_score_adj: oom,
                            memory: None,
                            cpu: None,
                            pids: None,
                            block_io: None,
                            hugepage_limits: Vec::new(),
                            network: None,
                        },
                    )
                },
                Some(_) => {
                    return Err(RuntimeError::Spec(String::from_str("resources is no object")));
                },
            };
            Some(
                Linux {
                    uid_mappings: Vec::new(),
                    gid_mappings: Vec::new(),
                    sysctl: Vec::new(),
                    resources,
                    cgroups_path: String::new(),
                    namespaces,
                    devices: Vec::new(),
                    rootfs_propagation: String::new(),
                    masked_paths: Vec::new(),
                    readonly_paths: Vec::new(),
                    mount_label: String::new(),
                },
            )
        },
        Some(_) => {
            return Err(RuntimeError::Spec(String::from_str("linux is no object")));
        },
    };
    let process = Process {
        terminal: false,
        console_size: Box { height: 0, width: 0 },
        user: User { uid: 0, gid: 0, additional_gids: Vec::new(), username: String::new() },
        args,
        env: Vec::new(),
        cwd: String::new(),
        capabilities,
        rlimits: Vec::new(),
        no_new_privileges: false,
        apparmor_profile: String::new(),
        selinux_label: String::new(),
    };
    let root = Root { path: root_path, readonly: false };
    Ok(
        Spec {
            version: String::new(),
            platform: None,
            process,
            root,
            hostname: String::new(),
            mounts: Vec::new(),
            annotations: Vec::new(),
            linux,
        },
    )
}

impl Spec {
    /// Reads and understands the configuration document at the given
    /// path.  A loaded configuration always carries at least one payload
    /// argument; a file that cannot be read is an I/O error, and one that
    /// is no valid configuration a specification error.
    pub fn load(path: &str) -> (r: Result<Spec, RuntimeError>)
        ensures
            r matches Ok(sp) ==> sp.process.args@.len() >= 1,
            r is Err ==> (r matches Err(RuntimeError::Io(_)) || r matches Err(
                RuntimeError::Spec(_),
            )),
    {
        let fd = match sys_open_read(path) {
            Ok(fd) => fd,
            Err(e) => {
                return Err(RuntimeError::Io(e));
            },
        };
        let bytes = match read_all(fd) {
            Ok(b) => b,
            Err(e) => {
                let _ = sys_close(fd);
                return Err(RuntimeError::Io(e));
            },
        };
        let _ = sys_close(fd);
        let chars = match utf8_to_chars(&bytes) {
            Some(cs) => cs,
            None => {
                return Err(RuntimeError::Spec(String::from_str("configuration is not text")));
            },
        };
        let doc = match parse_json(&chars) {
            Some(v) => v,
            None => {
                return Err(
                    RuntimeError::Spec(String::from_str("configuration is no JSON document")),
                );
            },
        };
        config_from_json(&doc)
    }
}

} // verus!
