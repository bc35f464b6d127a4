//! What the reactor does with an event.

use vstd::prelude::*;
use crate::epoll::{EPOLL_HTTPS_LISTENER_ID, EPOLL_HTTP_LISTENER_ID};

verus! {

/// What an event asks for.
#[derive(Clone, Copy, Debug, PartialEq, Eq, Structural)]
pub enum Wake {
    /// A connection waits at the HTTPS listener: accept it and hand it to
    /// a connection handler.
    AcceptHttps,
    /// A connection waits at the HTTP listener: accept it and hand it to a
    /// redirect handler.
    AcceptHttp,
    /// The id is that of no listener: note it and go on.
    Unknown,
}

/// What the event with the id `ev_id` asks for.
pub fn wake_of(ev_id: u64) -> (w: Wake)
    ensures
        w == (if ev_id == EPOLL_HTTPS_LISTENER_ID {
            Wake::AcceptHttps
        } else if ev_id == EPOLL_HTTP_LISTENER_ID {
            Wake::AcceptHttp
        } else {
            Wake::Unknown
        }),
{
    if ev_id == EPOLL_HTTPS_LISTENER_ID {
        Wake::AcceptHttps
    } else if ev_id == EPOLL_HTTP_LISTENER_ID {
        Wake::AcceptHttp
    } else {
        Wake::Unknown
    }
}

} // verus!
