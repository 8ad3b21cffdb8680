//! The decisions of the double-fork bootstrap.
//!
//! The forks themselves, the namespace system calls and the channel I/O are
//! driven from outside the library; what is decided or computed along the
//! way is here: how the intermediate child turns the init's wait status
//! into its own exit code, the framing of the init-pid message, and the
//! decimal texts written to the pid file and the oom score file.

use vstd::prelude::*;

use crate::error::RuntimeError;
use crate::numfmt::{dec_rep_signed, format_i64};
use crate::sys::chars_to_string;

verus! {

/// What waiting on the init process came to, as plain values.
#[derive(Debug, Clone, Copy, PartialEq, Eq, Structural)]
pub enum WaitOutcome {
    /// The process exited with the given code.
    Exited(i32),
    /// The process was ended by the given signal.
    Signaled(i32),
    /// Anything else.
    Other,
}

/// The exit code the intermediate child propagates: an exited init's own
/// code, zero for a signalled init, and a fatal error for anything else.
pub fn bootstrap_exit_code(w: WaitOutcome) -> (r: Result<i32, RuntimeError>)
    ensures
        match w {
            WaitOutcome::Exited(code) => r == Ok::<i32, RuntimeError>(code),
            WaitOutcome::Signaled(_) => r == Ok::<i32, RuntimeError>(0i32),
            WaitOutcome::Other => r == Err::<i32, RuntimeError>(RuntimeError::BootstrapAbnormal),
        },
{
    match w {
        WaitOutcome::Exited(code) => Ok(code),
        WaitOutcome::Signaled(_) => Ok(0),
        WaitOutcome::Other => Err(RuntimeError::BootstrapAbnormal),
    }
}

/// The four-byte frame of an init pid, least significant byte first.
pub open spec fn spec_pid_frame(pid: int) -> Seq<u8> {
    seq![
        (pid % 256) as u8,
        ((pid / 256) % 256) as u8,
        ((pid / 65536) % 256) as u8,
        ((pid / 16777216) % 256) as u8,
    ]
}

/// The pid a four-byte frame carries.
pub open spec fn frame_val(b: Seq<u8>) -> int {
    b[0] + 256 * b[1] + 65536 * b[2] + 16777216 * b[3]
}

/// Frames an init pid for the parent channel.
pub fn encode_init_pid(pid: i32) -> (r: Vec<u8>)
    requires
        pid >= 0,
    ensures
        r@ == spec_pid_frame(pid as int),
        r@.len() == 4,
{
    let u = pid as u32;
    let mut out: Vec<u8> = Vec::new();
    out.push((u % 256) as u8);
    out.push(((u / 256) % 256) as u8);
    out.push(((u / 65536) % 256) as u8);
    out.push(((u / 16777216) % 256) as u8);
    proof {
        assert(out@ =~= spec_pid_frame(pid as int));
    }
    out
}

/// Reads an init pid back out of a frame; anything but four bytes carrying
/// a non-negative pid is rejected.
pub fn decode_init_pid(b: &Vec<u8>) -> (r: Option<i32>)
    ensures
        b@.len() != 4 ==> r is None,
        b@.len() == 4 && frame_val(b@) <= i32::MAX ==> r == Some((frame_val(b@)) as i32),
        b@.len() == 4 && frame_val(b@) > i32::MAX ==> r is None,
{
    if b.len() != 4 {
        return None;
    }
    let v: u64 = b[0] as u64 + 256 * (b[1] as u64) + 65536 * (b[2] as u64) + 16777216 * (
    b[3] as u64);
    if v <= 0x7FFF_FFFFu64 {
        Some(v as i32)
    } else {
        None
    }
}

/// A framed pid reads back as itself.
pub proof fn lemma_pid_frame_round_trip(pid: int)
    requires
        0 <= pid <= i32::MAX,
    ensures
        frame_val(spec_pid_frame(pid)) == pid,
{
    let b = spec_pid_frame(pid);
    assert(b[0] == (pid % 256) as u8);
    assert(pid % 256 + 256 * ((pid / 256) % 256) + 65536 * ((pid / 65536) % 256) + 16777216 * ((
    pid / 16777216) % 256) == pid) by {
        assert(pid / 256 % 256 == pid % 65536 / 256);
        assert(pid / 65536 % 256 == pid % 16777216 / 65536);
        assert(pid / 16777216 % 256 == pid / 16777216);
    }
}

/// The phases the init process walks through after the second fork: it
/// prepares and pivots the rootfs, reports ready on the child channel,
/// blocks on the notify socket, and only once a `start` has connected does
/// it exec the payload.
#[derive(Debug, Clone, Copy, PartialEq, Eq, Structural)]
pub enum InitPhase {
    /// Preparing the rootfs, before the ready report.
    Preparing,
    /// Ready reported; blocked on the notify socket.
    AwaitingRelease,
    /// A client connected to the notify socket.
    Released,
    /// The payload has been exec'd.
    Executing,
}

/// What can happen to the init process.
#[derive(Debug, Clone, Copy, PartialEq, Eq, Structural)]
pub enum InitEvent {
    /// The ready byte went out on the child channel.
    ReadySent,
    /// The notify listener accepted a connection.
    StartConnected,
    /// The payload was exec'd.
    PayloadExec,
}

/// The init's one-way walk: each event is allowed in exactly one phase.
pub open spec fn init_next(p: InitPhase, e: InitEvent) -> Option<InitPhase> {
    match (p, e) {
        (InitPhase::Preparing, InitEvent::ReadySent) => Some(InitPhase::AwaitingRelease),
        (InitPhase::AwaitingRelease, InitEvent::StartConnected) => Some(InitPhase::Released),
        (InitPhase::Released, InitEvent::PayloadExec) => Some(InitPhase::Executing),
        _ => None,
    }
}

/// Where a run of events from a phase ends, if every step is allowed.
pub open spec fn init_run(p: InitPhase, events: Seq<InitEvent>) -> Option<InitPhase>
    decreases events.len(),
{
    if events.len() == 0 {
        Some(p)
    } else {
        match init_next(p, events[0]) {
            None => None,
            Some(q) => init_run(q, events.drop_first()),
        }
    }
}

/// The init never execs the payload without having passed the notify
/// barrier: any allowed run from the preparing phase that ends executing
/// contains a notify-socket connection.
pub proof fn lemma_exec_passes_notify_barrier(events: Seq<InitEvent>)
    requires
        init_run(InitPhase::Preparing, events) == Some(InitPhase::Executing),
    ensures
        exists|k: int| 0 <= k < events.len() && events[k] == InitEvent::StartConnected,
{
    lemma_run_from_awaiting(InitPhase::Preparing, events);
}

/// From any phase before the release, reaching the executing phase takes a
/// connection event.
proof fn lemma_run_from_awaiting(p: InitPhase, events: Seq<InitEvent>)
    requires
        p == InitPhase::Preparing || p == InitPhase::AwaitingRelease,
        init_run(p, events) == Some(InitPhase::Executing),
    ensures
        exists|k: int| 0 <= k < events.len() && events[k] == InitEvent::StartConnected,
    decreases events.len(),
{
    if events.len() == 0 {
    } else {
        let e = events[0];
        let q = init_next(p, e)->Some_0;
        if e == InitEvent::StartConnected {
            assert(events[0] == InitEvent::StartConnected);
        } else {
            lemma_run_from_awaiting(q, events.drop_first());
            let w = choose|k: int|
                0 <= k < events.drop_first().len() && events.drop_first()[k]
                    == InitEvent::StartConnected;
            assert(events[w + 1] == InitEvent::StartConnected);
        }
    }
}

/// The barriers of the create handoff, in the order the three processes
/// pass them: the child signals readiness, the init reports ready after
/// the rootfs pivot, the intermediate child passes the init pid up, and
/// only then does the parent persist the record as created.
#[derive(Debug, Clone, Copy, PartialEq, Eq, Structural)]
pub enum HandoffPhase {
    /// After the first fork, before any barrier.
    Started,
    /// The child has unshared what it must and signalled the condition.
    ChildReady,
    /// The init has pivoted and reported ready.
    InitReady,
    /// The intermediate child has passed the init pid to the parent.
    PidDelivered,
    /// The parent has persisted the record as created.
    CreatedPersisted,
}

/// The barrier crossings of the create handoff.
#[derive(Debug, Clone, Copy, PartialEq, Eq, Structural)]
pub enum HandoffEvent {
    /// The readiness condition fired.
    ConditionNotified,
    /// The init-ready byte crossed the child channel.
    InitReadySent,
    /// The init pid crossed the parent channel.
    InitPidSent,
    /// The parent saved the record as created.
    CreatedSaved,
}

/// Each barrier can be passed only once, and only in order.
pub open spec fn handoff_next(p: HandoffPhase, e: HandoffEvent) -> Option<HandoffPhase> {
    match (p, e) {
        (HandoffPhase::Started, HandoffEvent::ConditionNotified) => Some(HandoffPhase::ChildReady),
        (HandoffPhase::ChildReady, HandoffEvent::InitReadySent) => Some(HandoffPhase::InitReady),
        (HandoffPhase::InitReady, HandoffEvent::InitPidSent) => Some(HandoffPhase::PidDelivered),
        (HandoffPhase::PidDelivered, HandoffEvent::CreatedSaved) => Some(
            HandoffPhase::CreatedPersisted,
        ),
        _ => None,
    }
}

/// Where a run of handoff events from a phase ends, if every step is
/// allowed.
pub open spec fn handoff_run(p: HandoffPhase, events: Seq<HandoffEvent>) -> Option<HandoffPhase>
    decreases events.len(),
{
    if events.len() == 0 {
        Some(p)
    } else {
        match handoff_next(p, events[0]) {
            None => None,
            Some(q) => handoff_run(q, events.drop_first()),
        }
    }
}

/// The parent never persists the record as created before the init has
/// reported ready: in any allowed run of the handoff, the init-ready
/// barrier stands strictly before the save.
pub proof fn lemma_created_follows_init_ready(events: Seq<HandoffEvent>)
    requires
        handoff_run(HandoffPhase::Started, events) == Some(HandoffPhase::CreatedPersisted),
    ensures
        exists|i: int, j: int|
            0 <= i < j < events.len() && events[i] == HandoffEvent::InitReadySent && events[j]
                == HandoffEvent::CreatedSaved,
{
    lemma_handoff_order(HandoffPhase::Started, events);
}

/// From any phase before the init-ready barrier, a run ending with the
/// record persisted crosses the init-ready barrier before the save.
proof fn lemma_handoff_order(p: HandoffPhase, events: Seq<HandoffEvent>)
    requires
        p == HandoffPhase::Started || p == HandoffPhase::ChildReady,
        handoff_run(p, events) == Some(HandoffPhase::CreatedPersisted),
    ensures
        exists|i: int, j: int|
            0 <= i < j < events.len() && events[i] == HandoffEvent::InitReadySent && events[j]
                == HandoffEvent::CreatedSaved,
    decreases events.len(),
{
    let e = events[0];
    let q = handoff_next(p, e)->Some_0;
    if e == HandoffEvent::InitReadySent {
        lemma_handoff_tail_saves(q, events.drop_first());
        let w = choose|k: int|
            0 <= k < events.drop_first().len() && events.drop_first()[k]
                == HandoffEvent::CreatedSaved;
        assert(events[w + 1] == HandoffEvent::CreatedSaved);
        let j = w + 1;
        assert(0 <= 0 < j < events.len() && events[0] == HandoffEvent::InitReadySent
            && events[j] == HandoffEvent::CreatedSaved);
    } else {
        lemma_handoff_order(q, events.drop_first());
        let (i, j) = choose|i: int, j: int|
            0 <= i < j < events.drop_first().len() && events.drop_first()[i]
                == HandoffEvent::InitReadySent && events.drop_first()[j]
                == HandoffEvent::CreatedSaved;
        assert(events[i + 1] == HandoffEvent::InitReadySent);
        assert(events[j + 1] == HandoffEvent::CreatedSaved);
        assert(0 <= i + 1 < j + 1 < events.len() && events[i + 1] == HandoffEvent::InitReadySent
            && events[j + 1] == HandoffEvent::CreatedSaved);
    }
}

/// After the init-ready barrier, a run ending with the record persisted
/// still contains the save itself.
proof fn lemma_handoff_tail_saves(p: HandoffPhase, events: Seq<HandoffEvent>)
    requires
        handoff_run(p, events) == Some(HandoffPhase::CreatedPersisted),
        p != HandoffPhase::CreatedPersisted,
    ensures
        exists|k: int| 0 <= k < events.len() && events[k] == HandoffEvent::CreatedSaved,
    decreases events.len(),
{
    let e = events[0];
    let q = handoff_next(p, e)->Some_0;
    if e == HandoffEvent::CreatedSaved {
        assert(events[0] == HandoffEvent::CreatedSaved);
    } else {
        lemma_handoff_tail_saves(q, events.drop_first());
        let w = choose|k: int|
            0 <= k < events.drop_first().len() && events.drop_first()[k]
                == HandoffEvent::CreatedSaved;
        assert(events[w + 1] == HandoffEvent::CreatedSaved);
    }
}

/// The text written to a pid file: the decimal pid, no trailing newline.
pub fn pid_file_text(pid: i32) -> (r: String)
    ensures
        r@ == dec_rep_signed(pid as int),
{
    let chars = format_i64(pid as i64);
    chars_to_string(&chars)
}

/// The text written to the oom score file: the decimal adjustment.
pub fn oom_score_text(adj: i32) -> (r: String)
    ensures
        r@ == dec_rep_signed(adj as int),
{
    let chars = format_i64(adj as i64);
    chars_to_string(&chars)
}

} // verus!
