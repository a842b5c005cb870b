//! What can go wrong with one reply, and with a probe session as a whole.

use vstd::prelude::*;

verus! {

/// Why a reply yields no probe match. Such a reply is dropped; the session
/// goes on.
#[derive(Debug, Clone, Copy, PartialEq, Eq, Structural)]
pub enum ParseError {
    /// The document ended before the header section was closed.
    MissingHeader,
    /// The document is not well-formed XML, or ended inside the body.
    MalformedXml,
}

/// Why a probe session as a whole fails.
#[derive(Debug, Clone, Copy, PartialEq, Eq, Structural)]
pub enum ProbeError {
    /// No local UDP endpoint could be bound.
    Bind,
    /// The listener's channel was closed before anything came through it.
    Channel,
    /// The socket became useless while probes were being sent.
    Socket,
}

/// How one read or one send on the session's socket failed, as far as the
/// session cares.
#[derive(Debug, Clone, Copy, PartialEq, Eq, Structural)]
pub enum SocketFault {
    /// Nothing was there within the time that one operation may take.
    TimedOut,
    /// The operation was interrupted before it did anything.
    Interrupted,
    /// An earlier datagram was turned down by a peer, and the socket says so
    /// now.
    Refused,
    /// Anything else.
    Other,
}

impl SocketFault {
    /// Whether the socket is as good as before. It is after everything but
    /// a fault that the session has no name for.
    pub open spec fn passing(self) -> bool {
        !(self is Other)
    }

    /// Decides [`SocketFault::passing`].
    pub fn passes(self) -> (r: bool)
        ensures
            r == self.passing(),
    {
        match self {
            SocketFault::Other => false,
            _ => true,
        }
    }
}

} // verus!
