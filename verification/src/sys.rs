//! Trusted bindings to the operating system and the standard library.
//!
//! Each function here wraps one outside call.  Verus believes the stated
//! contracts; everything else in the crate is proved against them.

use vstd::prelude::*;

use crate::status::ProcessProbe;

verus! {

/// What one kill(2) call came to.
#[derive(Debug, Clone, Copy, PartialEq, Eq, Structural)]
pub enum KillOutcome {
    /// The signal was delivered.
    Delivered,
    /// There is no such process (ESRCH).
    NoSuchProcess,
    /// The call failed with the given errno.
    Failed(i32),
}

/// The errno for a missing file or directory.
pub const ENOENT_CODE: i32 = 2;

/// Relies on nix::fcntl::open with O_RDONLY: yields a file descriptor or the
/// errno.
#[verifier::external_body]
pub fn sys_open_read(path: &str) -> (r: Result<i32, i32>) {
    match nix::fcntl::open(path, nix::fcntl::OFlag::O_RDONLY, nix::sys::stat::Mode::empty()) {
        Ok(fd) => Ok(fd),
        Err(e) => Err(e.as_errno().map(|x| x as i32).unwrap_or(-1)),
    }
}

/// Relies on nix::fcntl::open with O_WRONLY | O_CREAT | O_TRUNC: creates or
/// truncates the file and yields a descriptor for writing, or the errno.
#[verifier::external_body]
pub fn sys_open_write(path: &str) -> (r: Result<i32, i32>) {
    match nix::fcntl::open(
        path,
        nix::fcntl::OFlag::O_WRONLY | nix::fcntl::OFlag::O_CREAT | nix::fcntl::OFlag::O_TRUNC,
        nix::sys::stat::Mode::from_bits_truncate(0o644),
    ) {
        Ok(fd) => Ok(fd),
        Err(e) => Err(e.as_errno().map(|x| x as i32).unwrap_or(-1)),
    }
}

/// Relies on nix::unistd::read: reads at most `buf.len()` bytes into the
/// front of `buf` and yields how many, or the errno.  What the bytes are
/// depends on the file.
#[verifier::external_body]
pub fn sys_read(fd: i32, buf: &mut Vec<u8>) -> (r: Result<usize, i32>)
    ensures
        final(buf)@.len() == old(buf)@.len(),
        r matches Ok(n) ==> n <= old(buf)@.len(),
{
    match nix::unistd::read(fd, buf.as_mut_slice()) {
        Ok(n) => Ok(n),
        Err(e) => Err(e.as_errno().map(|x| x as i32).unwrap_or(-1)),
    }
}

/// Relies on nix::unistd::write: writes some prefix of `buf` and yields how
/// much was taken, or the errno.
#[verifier::external_body]
pub fn sys_write(fd: i32, buf: &[u8]) -> (r: Result<usize, i32>)
    ensures
        r matches Ok(n) ==> n <= buf@.len(),
{
    match nix::unistd::write(fd, buf) {
        Ok(n) => Ok(n),
        Err(e) => Err(e.as_errno().map(|x| x as i32).unwrap_or(-1)),
    }
}

/// Relies on nix::unistd::close.
#[verifier::external_body]
pub fn sys_close(fd: i32) -> (r: Result<(), i32>) {
    match nix::unistd::close(fd) {
        Ok(()) => Ok(()),
        Err(e) => Err(e.as_errno().map(|x| x as i32).unwrap_or(-1)),
    }
}

/// Relies on nix::fcntl::renameat: renames `from` to `to` atomically within
/// a filesystem.
#[verifier::external_body]
pub fn sys_rename(from: &str, to: &str) -> (r: Result<(), i32>) {
    match nix::fcntl::renameat(None, from, None, to) {
        Ok(()) => Ok(()),
        Err(e) => Err(e.as_errno().map(|x| x as i32).unwrap_or(-1)),
    }
}

/// Relies on nix::unistd::unlink.
#[verifier::external_body]
pub fn sys_unlink(path: &str) -> (r: Result<(), i32>) {
    match nix::unistd::unlink(path) {
        Ok(()) => Ok(()),
        Err(e) => Err(e.as_errno().map(|x| x as i32).unwrap_or(-1)),
    }
}

/// Relies on nix::unistd::unlinkat with RemoveDir: removes an empty
/// directory.
#[verifier::external_body]
pub fn sys_rmdir(path: &str) -> (r: Result<(), i32>) {
    match nix::unistd::unlinkat(None, path, nix::unistd::UnlinkatFlags::RemoveDir) {
        Ok(()) => Ok(()),
        Err(e) => Err(e.as_errno().map(|x| x as i32).unwrap_or(-1)),
    }
}

/// Relies on nix::unistd::mkdir.
#[verifier::external_body]
pub fn sys_mkdir(path: &str) -> (r: Result<(), i32>) {
    match nix::unistd::mkdir(path, nix::sys::stat::Mode::from_bits_truncate(0o755)) {
        Ok(()) => Ok(()),
        Err(e) => Err(e.as_errno().map(|x| x as i32).unwrap_or(-1)),
    }
}

/// Relies on nix::sys::stat::stat: whether the path can be stat'ed now.
#[verifier::external_body]
pub fn path_exists(path: &str) -> (r: bool) {
    nix::sys::stat::stat(path).is_ok()
}

/// Relies on nix::sys::signal::kill and Signal::try_from: sends the signal
/// and classifies the outcome; a number that is no signal fails with EINVAL.
#[verifier::external_body]
pub fn sys_kill(pid: i32, sig: i32) -> (r: KillOutcome) {
    match nix::sys::signal::Signal::try_from(sig) {
        Err(_) => KillOutcome::Failed(22),
        Ok(s) => match nix::sys::signal::kill(nix::unistd::Pid::from_raw(pid), s) {
            Ok(()) => KillOutcome::Delivered,
            Err(nix::Error::Sys(nix::errno::Errno::ESRCH)) => KillOutcome::NoSuchProcess,
            Err(e) => KillOutcome::Failed(e.as_errno().map(|x| x as i32).unwrap_or(-1)),
        },
    }
}

/// Relies on procfs::process::Process::new and Stat::state: reports whether
/// the process is gone, a zombie, dead, or otherwise alive.  A stat that
/// cannot be read counts as gone.
#[verifier::external_body]
pub fn probe_process(pid: i32) -> (r: ProcessProbe) {
    match procfs::process::Process::new(pid) {
        Err(_) => ProcessProbe::Missing,
        Ok(p) => match p.stat.state() {
            Ok(procfs::process::ProcState::Zombie) => ProcessProbe::Zombie,
            Ok(procfs::process::ProcState::Dead) => ProcessProbe::Dead,
            Ok(_) => ProcessProbe::Alive,
            Err(_) => ProcessProbe::Missing,
        },
    }
}

/// Relies on String's FromIterator over chars: collects the characters into
/// a string holding exactly them.
#[verifier::external_body]
pub fn chars_to_string(v: &Vec<char>) -> (r: String)
    ensures
        r@ == v@,
{
    v.iter().collect()
}

/// Relies on str::from_utf8 and str::chars: bytes that are the UTF-8
/// encoding of a character sequence decode to exactly that sequence, and
/// whatever decodes encodes back to the given bytes.
#[verifier::external_body]
pub fn utf8_to_chars(v: &Vec<u8>) -> (r: Option<Vec<char>>)
    ensures
        r matches Some(cs) ==> v@ == vstd::utf8::encode_utf8(cs@),
        forall|cs: Seq<char>|
            v@ == #[trigger] vstd::utf8::encode_utf8(cs) ==> (r is Some && r->Some_0@ == cs),
{
    match std::str::from_utf8(v.as_slice()) {
        Ok(s) => Some(s.chars().collect()),
        Err(_) => None,
    }
}

/// Relies on nix::sys::socket::socket: a fresh Unix stream socket.
#[verifier::external_body]
pub fn sock_stream_unix() -> (r: Result<i32, i32>) {
    match nix::sys::socket::socket(
        nix::sys::socket::AddressFamily::Unix,
        nix::sys::socket::SockType::Stream,
        nix::sys::socket::SockFlag::empty(),
        None,
    ) {
        Ok(fd) => Ok(fd),
        Err(e) => Err(e.as_errno().map(|x| x as i32).unwrap_or(-1)),
    }
}

/// Relies on nix::sys::socket::bind with a Unix address at the given path.
#[verifier::external_body]
pub fn sock_bind(fd: i32, path: &str) -> (r: Result<(), i32>) {
    let addr = match nix::sys::socket::UnixAddr::new(path) {
        Ok(a) => a,
        Err(e) => return Err(e.as_errno().map(|x| x as i32).unwrap_or(-1)),
    };
    match nix::sys::socket::bind(fd, &nix::sys::socket::SockAddr::Unix(addr)) {
        Ok(()) => Ok(()),
        Err(e) => Err(e.as_errno().map(|x| x as i32).unwrap_or(-1)),
    }
}

/// Relies on nix::sys::socket::listen.
#[verifier::external_body]
pub fn sock_listen(fd: i32, backlog: usize) -> (r: Result<(), i32>) {
    match nix::sys::socket::listen(fd, backlog) {
        Ok(()) => Ok(()),
        Err(e) => Err(e.as_errno().map(|x| x as i32).unwrap_or(-1)),
    }
}

/// Relies on nix::sys::socket::accept: blocks until a client connects.
#[verifier::external_body]
pub fn sock_accept(fd: i32) -> (r: Result<i32, i32>) {
    match nix::sys::socket::accept(fd) {
        Ok(c) => Ok(c),
        Err(e) => Err(e.as_errno().map(|x| x as i32).unwrap_or(-1)),
    }
}

/// Relies on nix::sys::socket::connect with a Unix address at the given
/// path.
#[verifier::external_body]
pub fn sock_connect(fd: i32, path: &str) -> (r: Result<(), i32>) {
    let addr = match nix::sys::socket::UnixAddr::new(path) {
        Ok(a) => a,
        Err(e) => return Err(e.as_errno().map(|x| x as i32).unwrap_or(-1)),
    };
    match nix::sys::socket::connect(fd, &nix::sys::socket::SockAddr::Unix(addr)) {
        Ok(()) => Ok(()),
        Err(e) => Err(e.as_errno().map(|x| x as i32).unwrap_or(-1)),
    }
}

} // verus!
