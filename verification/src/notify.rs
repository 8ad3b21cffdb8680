//! The notify socket: the rendezvous by which `start` releases a created
//! container into running.
//!
//! The listener is bound during `create`, before the first fork, so the
//! path exists before the init waits on it.  A client connecting is the
//! entire signal; the message body is unused.

use vstd::prelude::*;

use crate::error::RuntimeError;
use crate::strutil::path_join;
use crate::sys::{chars_to_string, sock_accept, sock_bind, sock_connect, sock_listen,
    sock_stream_unix, sys_close};

verus! {

/// The listening side, created during `create`: a listening descriptor
/// and the path it is bound at.
#[derive(Debug)]
pub struct NotifyListener {
    pub fd: i32,
    pub path: String,
}

impl NotifyListener {
    /// Binds `notify.sock` inside the state directory and starts
    /// listening: on success the socket stands at that path, so it exists
    /// before the init waits on it.
    pub fn new(root: &str) -> (r: Result<NotifyListener, RuntimeError>)
        ensures
            r matches Ok(l) ==> l.path@ == root@ + seq!['/'] + "notify.sock"@,
            r is Err ==> r matches Err(RuntimeError::Syscall(_)),
    {
        let path_chars = path_join(root, "notify.sock");
        let path = chars_to_string(&path_chars);
        let fd = match sock_stream_unix() {
            Ok(fd) => fd,
            Err(e) => {
                return Err(RuntimeError::Syscall(e));
            },
        };
        match sock_bind(fd, path.as_str()) {
            Ok(()) => {},
            Err(e) => {
                let _ = sys_close(fd);
                return Err(RuntimeError::Syscall(e));
            },
        }
        match sock_listen(fd, 128) {
            Ok(()) => Ok(NotifyListener { fd, path }),
            Err(e) => {
                let _ = sys_close(fd);
                Err(RuntimeError::Syscall(e))
            },
        }
    }

    /// Blocks until any client connects; the connection itself is the
    /// signal, so the accepted stream is closed at once.
    pub fn wait_for_container_start(&self) -> (r: Result<(), RuntimeError>)
        ensures
            r is Err ==> r matches Err(RuntimeError::Syscall(_)),
    {
        match sock_accept(self.fd) {
            Ok(conn) => {
                let _ = sys_close(conn);
                Ok(())
            },
            Err(e) => Err(RuntimeError::Syscall(e)),
        }
    }

    /// Closes the listener, once the handoff is done.
    pub fn close(&self) {
        let _ = sys_close(self.fd);
    }
}

/// The client side, used by `start`.
#[derive(Debug)]
pub struct NotifySocket {
    pub path: String,
}

impl NotifySocket {
    /// A client for the notify socket inside the given state directory.
    pub fn new(root: &str) -> (r: NotifySocket)
        ensures
            r.path@ == root@ + seq!['/'] + "notify.sock"@,
    {
        let path_chars = path_join(root, "notify.sock");
        NotifySocket { path: chars_to_string(&path_chars) }
    }

    /// Connects and disconnects: a successful connect is the whole
    /// message.
    pub fn notify_container_start(&self) -> (r: Result<(), RuntimeError>)
        ensures
            r is Err ==> r matches Err(RuntimeError::Syscall(_)),
    {
        let fd = match sock_stream_unix() {
            Ok(fd) => fd,
            Err(e) => {
                return Err(RuntimeError::Syscall(e));
            },
        };
        match sock_connect(fd, self.path.as_str()) {
            Ok(()) => {
                let _ = sys_close(fd);
                Ok(())
            },
            Err(e) => {
                let _ = sys_close(fd);
                Err(RuntimeError::Syscall(e))
            },
        }
    }
}

} // verus!
