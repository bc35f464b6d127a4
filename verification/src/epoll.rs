//! The reactor's bookkeeping: which interests are registered under which
//! event ids. The system calls themselves are made by the caller.

use vstd::prelude::*;

verus! {

/// Readiness for reading.
pub const READ_FLAG: i32 = 0x1;

/// Readiness for reading, reported once and then disarmed.
pub const READ_ONESHOT_FLAGS: i32 = 0x40000001;

/// Readiness for writing.
pub const WRITE_FLAG: i32 = 0x4;

/// The most events taken from one wait.
pub const EPOLL_MAX_EVENTS: usize = 1024;

/// The longest that one wait lasts, in milliseconds.
pub const EPOLL_MAX_WAIT_TIME: u32 = 5000;

/// The event id of the HTTPS listener.
pub const EPOLL_HTTPS_LISTENER_ID: u64 = 0;

/// The event id of the HTTP listener.
pub const EPOLL_HTTP_LISTENER_ID: u64 = 1;

/// The id below the first one that the TCP stream under an HTTPS
/// connection gets.
pub const EPOLL_HTTPS_TCP_STREAM_START_ID: u64 = 18_000_000_000_000_000_000;

/// The id below the first one that a TLS stream gets.
pub const EPOLL_TLS_STREAM_START_ID: u64 = 10_000_000_000_000_000_000;

/// An interest to register: the descriptor, the readiness asked for, and
/// the id under which its events are reported.
#[derive(Clone, Copy, Debug, PartialEq, Eq, Structural)]
pub struct Interest {
    pub fd: i32,
    pub events: u32,
    pub id: u64,
}

/// The reactor's state: its own descriptor and the id given out last.
#[derive(Debug)]
pub struct Epoll {
    pub epoll_fd: i32,
    pub tls_stream_id: u64,
}

impl Epoll {
    /// A reactor on the descriptor `epoll_fd` that has given out no id yet.
    pub fn new(epoll_fd: i32) -> (e: Self)
        ensures
            e.epoll_fd == epoll_fd,
            e.tls_stream_id == EPOLL_TLS_STREAM_START_ID,
    {
        Self { epoll_fd: epoll_fd, tls_stream_id: EPOLL_TLS_STREAM_START_ID }
    }

    /// The interests of the two listeners: plain readiness for reading,
    /// each under its reserved id, the HTTPS listener first.
    pub fn reg_listeners(&self, https_listener_fd: i32, http_listener_fd: i32) -> (r: (
        Interest,
        Interest,
    ))
        ensures
            r.0 == (Interest {
                fd: https_listener_fd,
                events: READ_FLAG as u32,
                id: EPOLL_HTTPS_LISTENER_ID,
            }),
            r.1 == (Interest {
                fd: http_listener_fd,
                events: READ_FLAG as u32,
                id: EPOLL_HTTP_LISTENER_ID,
            }),
    {
        (
            Interest { fd: https_listener_fd, events: READ_FLAG as u32, id: EPOLL_HTTPS_LISTENER_ID },
            Interest { fd: http_listener_fd, events: READ_FLAG as u32, id: EPOLL_HTTP_LISTENER_ID },
        )
    }

    /// The interest of a new TLS stream, under the next id. Nothing, and
    /// no change, once the ids have run out.
    pub fn reg_tls_stream(&mut self, stream_fd: i32) -> (r: Option<Interest>)
        ensures
            final(self).epoll_fd == old(self).epoll_fd,
            old(self).tls_stream_id < u64::MAX ==> final(self).tls_stream_id == old(
                self,
            ).tls_stream_id + 1 && r == Some(
                Interest {
                    fd: stream_fd,
                    events: READ_ONESHOT_FLAGS as u32,
                    id: final(self).tls_stream_id,
                },
            ),
            old(self).tls_stream_id == u64::MAX ==> final(self).tls_stream_id == u64::MAX && r
                is None,
    {
        if self.tls_stream_id == u64::MAX {
            return None;
        }
        self.tls_stream_id = self.tls_stream_id + 1;
        Some(self.reg_stream(stream_fd, self.tls_stream_id))
    }

    /// The interest of a stream under the id `id`: readiness for reading,
    /// reported once.
    pub fn reg_stream(&self, stream_fd: i32, id: u64) -> (r: Interest)
        ensures
            r == (Interest { fd: stream_fd, events: READ_ONESHOT_FLAGS as u32, id: id }),
    {
        Interest { fd: stream_fd, events: READ_ONESHOT_FLAGS as u32, id: id }
    }
}

/// The interest that arms a stream again after its event was taken.
pub fn rearm_interest(fd: i32, ev_id: u64) -> (r: Interest)
    ensures
        r == (Interest { fd: fd, events: READ_ONESHOT_FLAGS as u32, id: ev_id }),
{
    Interest { fd: fd, events: READ_ONESHOT_FLAGS as u32, id: ev_id }
}

} // verus!
