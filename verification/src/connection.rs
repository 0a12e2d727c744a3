//! Where a call goes.

use vstd::prelude::*;

verus! {

/// The endpoint of a call: a TCP address or the path of a UNIX-domain
/// socket, each in its text form.
#[derive(Debug, PartialEq, Eq)]
pub enum SocketOrUnix {
    Socket(String),
    Unix(String),
}

/// Opens a connection to a target: a TCP stream for a socket address, a
/// UNIX stream for a path. It holds no state; connections are not kept.
#[derive(Debug, Clone, Copy, PartialEq, Eq)]
pub struct DefaultMakeConnection;

impl Clone for SocketOrUnix {
    fn clone(&self) -> (r: Self)
        ensures
            r == *self,
    {
        match self {
            SocketOrUnix::Socket(s) => SocketOrUnix::Socket(s.clone()),
            SocketOrUnix::Unix(s) => SocketOrUnix::Unix(s.clone()),
        }
    }
}

} // verus!
