//! The endpoint that a server listens on and a client connects to.

use vstd::prelude::*;

verus! {

/// A named endpoint: the filesystem path of a Unix-domain stream socket.
///
/// The value only names the endpoint. Both roles start from it: a server
/// serves it, a client sends to it. Its view is the path.
#[derive(Debug)]
pub struct SockMonitor {
    sock: String,
}

impl View for SockMonitor {
    type V = Seq<char>;

    closed spec fn view(&self) -> Seq<char> {
        self.sock@
    }
}

impl SockMonitor {
    /// Names the endpoint at `sock`. Nothing is opened or created.
    pub fn new(sock: &str) -> (mon: Self)
        ensures
            mon@ == sock@,
    {
        SockMonitor { sock: sock.to_owned() }
    }

    /// The path of the endpoint.
    pub fn path(&self) -> (sock: &str)
        ensures
            sock@ == self@,
    {
        self.sock.as_str()
    }
}

} // verus!
