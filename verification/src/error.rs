//! Failures: what the transport reports, and what an endpoint makes of it.

use vstd::prelude::*;

verus! {

/// The kind of failure that a socket call reported.
#[derive(Clone, Copy, Debug, PartialEq, Eq, Structural)]
pub enum IoFailure {
    /// A non-blocking call found nothing to do.
    WouldBlock,
    /// A bounded wait ran out.
    TimedOut,
    /// A signal cut the call short; the call may be repeated.
    Interrupted,
    /// The address is taken by another socket.
    AddrInUse,
    /// The address does not belong to this machine.
    AddrNotAvailable,
    /// The process may not use the address or the socket.
    PermissionDenied,
    /// The peer refused the connection or the datagram.
    ConnectionRefused,
    /// The peer reset the connection.
    ConnectionReset,
    /// The network cannot be reached.
    NetworkDown,
    /// An argument was not acceptable.
    InvalidInput,
    /// Any other failure.
    Other,
}

impl IoFailure {
    /// The failure says that a bounded wait ended with nothing received.
    /// Which of the two signals the transport gives depends on the
    /// platform.
    pub open spec fn is_pending(self) -> bool {
        self == IoFailure::WouldBlock || self == IoFailure::TimedOut
    }

    /// Tells whether the failure says that a bounded wait ended with
    /// nothing received.
    pub fn pending(self) -> (r: bool)
        ensures
            r == self.is_pending(),
    {
        match self {
            IoFailure::WouldBlock => true,
            IoFailure::TimedOut => true,
            _ => false,
        }
    }
}

/// What an endpoint reports to its caller.
#[derive(Clone, Copy, Debug, PartialEq, Eq, Structural)]
pub enum IpcError {
    /// The socket could not be bound.
    Bind(IoFailure),
    /// The endpoint holds a socket already.
    AlreadyBound,
    /// A bounded wait ended without a message.
    Timeout,
    /// A read timeout of no length was asked for.
    ZeroTimeout,
    /// A frame declares more than the caller's budget allows.
    OversizedMessage { declared: u32, max_size: usize },
    /// A payload is too long for a frame: its length cannot be written in
    /// the header, or the frame could not be addressed.
    PayloadTooLong { len: usize },
    /// The stream ended before the declared length was reached.
    TruncatedMessage,
    /// The transport failed in another way.
    Io(IoFailure),
}

} // verus!
