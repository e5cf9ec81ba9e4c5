//! Datagram endpoints: a server that is polled and a client that sends and
//! may wait for one reply.
//!
//! A datagram carries the payload and nothing else: its boundary is the
//! message's boundary. An endpoint here holds no socket. It holds what the
//! exchange depends on (the address, whether a socket was bound, the read
//! timeout) and interprets the outcome of each socket call that its owner
//! made.

use vstd::prelude::*;

use crate::endpoint::Endpoint;
use crate::error::{IoFailure, IpcError};
use crate::timeout::TimeSpan;

verus! {

/// What one receive reported: the number of bytes written to the buffer
/// and the sender's address, or a failure.
pub type Receipt = Result<(usize, Endpoint), IoFailure>;

/// What a poll hands to the caller: a message with its sender, or nothing.
pub type Delivery = Result<Option<(Endpoint, Vec<u8>)>, IpcError>;

/// A delivery with the payload as a sequence.
pub type DeliveryView = Result<Option<(Endpoint, Seq<u8>)>, IpcError>;

/// The read timeout of a client that was never told another: half a second.
pub const DEFAULT_TIMEOUT_MILLIS: u64 = 500;

/// The part of a receive buffer that holds the datagram: its first `len`
/// bytes, or all of it where the count exceeds the buffer.
pub open spec fn kept(buffer: Seq<u8>, len: nat) -> Seq<u8> {
    if len <= buffer.len() {
        buffer.take(len as int)
    } else {
        buffer
    }
}

/// What a datagram transport leaves in a receive buffer when `payload`
/// arrives: as much of the payload as fits, in place of the buffer's first
/// bytes. What does not fit is lost without a sign.
pub open spec fn filled(buffer: Seq<u8>, payload: Seq<u8>) -> Seq<u8> {
    if payload.len() <= buffer.len() {
        payload + buffer.skip(payload.len() as int)
    } else {
        payload.take(buffer.len() as int)
    }
}

/// The count that the transport reports for that arrival.
pub open spec fn filled_len(buffer: Seq<u8>, payload: Seq<u8>) -> nat {
    if payload.len() <= buffer.len() {
        payload.len()
    } else {
        buffer.len()
    }
}

/// The meaning of a non-blocking receive for a server that is polled.
///
/// Nothing queued is the steady state, not an error: the would-block
/// signal, and no other failure, stands for it. A datagram of no length is
/// a keep-alive and counts as nothing. Every other failure goes to the
/// caller.
pub open spec fn polled(buffer: Seq<u8>, receipt: Receipt) -> DeliveryView {
    match receipt {
        Ok((len, source)) => if len == 0 {
            Ok(None)
        } else {
            Ok(Some((source, kept(buffer, len as nat))))
        },
        Err(failure) => if failure == IoFailure::WouldBlock {
            Ok(None)
        } else {
            Err(IpcError::Io(failure))
        },
    }
}

/// The meaning of a non-blocking receive with the sender left out.
pub open spec fn polled_data(buffer: Seq<u8>, receipt: Receipt) -> Result<
    Option<Seq<u8>>,
    IpcError,
> {
    match polled(buffer, receipt) {
        Ok(Some((_, payload))) => Ok(Some(payload)),
        Ok(None) => Ok(None),
        Err(error) => Err(error),
    }
}

/// The meaning of a blocking receive for a client that waits for a reply.
///
/// The first datagram is the reply, whoever sent it. A wait that ran out is
/// a timeout, which the caller may recover from. A reply of no length
/// counts as nothing.
pub open spec fn awaited(buffer: Seq<u8>, receipt: Receipt) -> DeliveryView {
    match receipt {
        Ok((len, source)) => if len == 0 {
            Ok(None)
        } else {
            Ok(Some((source, kept(buffer, len as nat))))
        },
        Err(failure) => if failure.is_pending() {
            Err(IpcError::Timeout)
        } else {
            Err(IpcError::Io(failure))
        },
    }
}

/// The meaning of a send followed by a blocking receive, for a client that
/// waits for a reply.
///
/// A send that failed ends the exchange with its failure, and no receive
/// has any part in the answer. After a send that left, the answer is that
/// of the receive.
pub open spec fn exchanged(
    sent: Result<usize, IoFailure>,
    buffer: Seq<u8>,
    receipt: Option<Receipt>,
) -> DeliveryView
    recommends
        sent is Ok ==> receipt is Some,
{
    match sent {
        Err(failure) => Err(IpcError::Io(failure)),
        Ok(_) => awaited(buffer, receipt->Some_0),
    }
}

/// The meaning of a send: the number of bytes that left, or the failure.
pub open spec fn sent(outcome: Result<usize, IoFailure>) -> Result<usize, IpcError> {
    match outcome {
        Ok(count) => Ok(count),
        Err(failure) => Err(IpcError::Io(failure)),
    }
}

/// The meaning of an attempt to bind, for an endpoint that is bound
/// already or not. An endpoint binds once.
pub open spec fn binding(bound: bool, attempt: Result<(), IoFailure>) -> Result<(), IpcError> {
    if bound {
        Err(IpcError::AlreadyBound)
    } else {
        match attempt {
            Ok(_) => Ok(()),
            Err(failure) => Err(IpcError::Bind(failure)),
        }
    }
}

/// Whether a read timeout is accepted: any but a span of no length.
pub open spec fn timeout_change(duration: Option<TimeSpan>) -> Result<(), IpcError> {
    match duration {
        Some(span) => if span.total_nanos() == 0 {
            Err(IpcError::ZeroTimeout)
        } else {
            Ok(())
        },
        None => Ok(()),
    }
}

/// A delivery with its payload taken by its view.
pub open spec fn delivery_view(delivery: Delivery) -> DeliveryView {
    match delivery {
        Ok(Some((source, payload))) => Ok(Some((source, payload@))),
        Ok(None) => Ok(None),
        Err(error) => Err(error),
    }
}

/// A payload or nothing, the payload taken by its view.
pub open spec fn payload_view(data: Result<Option<Vec<u8>>, IpcError>) -> Result<
    Option<Seq<u8>>,
    IpcError,
> {
    match data {
        Ok(Some(payload)) => Ok(Some(payload@)),
        Ok(None) => Ok(None),
        Err(error) => Err(error),
    }
}

/// A buffer of `max_size` zero bytes for one receive.
pub fn receive_buffer(max_size: usize) -> (buffer: Vec<u8>)
    ensures
        buffer@ == Seq::new(max_size as nat, |i: int| 0u8),
{
    let buffer: Vec<u8> = vec![0u8; max_size];
    assert(buffer@ =~= Seq::new(max_size as nat, |i: int| 0u8));
    buffer
}

/// Cuts a receive buffer down to the datagram that it holds.
fn keep(buffer: Vec<u8>, len: usize) -> (payload: Vec<u8>)
    ensures
        payload@ == kept(buffer@, len as nat),
{
    let mut payload = buffer;
    payload.truncate(len);
    payload
}

/// A server on a datagram socket.
#[derive(Clone, Copy, Debug, PartialEq, Eq, Structural)]
pub struct IpcServer {
    addr: Endpoint,
    bound: bool,
}

impl IpcServer {
    /// The address that the server binds to.
    pub closed spec fn address(self) -> Endpoint {
        self.addr
    }

    /// A socket was bound and put in non-blocking mode.
    pub closed spec fn is_bound(self) -> bool {
        self.bound
    }

    /// A server for `sock_addr`, not yet bound.
    pub fn new(sock_addr: Endpoint) -> (server: Self)
        ensures
            server.address() == sock_addr,
            !server.is_bound(),
    {
        IpcServer { addr: sock_addr, bound: false }
    }

    /// The address that the server binds to.
    pub fn addr(&self) -> (addr: Endpoint)
        ensures
            addr == self.address(),
    {
        self.addr
    }

    /// Tells whether a socket was bound.
    pub fn bound(&self) -> (bound: bool)
        ensures
            bound == self.is_bound(),
    {
        self.bound
    }

    /// Records the attempt to bind a non-blocking socket to the server's
    /// address.
    ///
    /// A server binds once: on a bound server the call fails with
    /// `AlreadyBound`, whatever the attempt gave, and the server stays
    /// bound. Otherwise a failed attempt is a `Bind` error and leaves the
    /// server unbound.
    pub fn bind(&mut self, attempt: Result<(), IoFailure>) -> (r: Result<(), IpcError>)
        ensures
            final(self).address() == old(self).address(),
            r == binding(old(self).is_bound(), attempt),
            final(self).is_bound() == (old(self).is_bound() || attempt is Ok),
    {
        if self.bound {
            return Err(IpcError::AlreadyBound);
        }
        match attempt {
            Ok(_) => {
                self.bound = true;
                Ok(())
            },
            Err(failure) => Err(IpcError::Bind(failure)),
        }
    }

    /// Does what `bind` does.
    pub fn connect(&mut self, attempt: Result<(), IoFailure>) -> (r: Result<(), IpcError>)
        ensures
            final(self).address() == old(self).address(),
            r == binding(old(self).is_bound(), attempt),
            final(self).is_bound() == (old(self).is_bound() || attempt is Ok),
    {
        self.bind(attempt)
    }

    /// Interprets one non-blocking receive into `buffer`.
    ///
    /// The payload is never longer than the buffer: of a longer datagram
    /// the transport keeps only what fits, and nothing here can tell.
    pub fn get(&self, buffer: Vec<u8>, receipt: Receipt) -> (delivery: Delivery)
        requires
            self.is_bound(),
        ensures
            delivery_view(delivery) == polled(buffer@, receipt),
    {
        match receipt {
            Ok((len, source)) => {
                if len == 0 {
                    Ok(None)
                } else {
                    Ok(Some((source, keep(buffer, len))))
                }
            },
            Err(failure) => {
                match failure {
                    IoFailure::WouldBlock => Ok(None),
                    _ => Err(IpcError::Io(failure)),
                }
            },
        }
    }

    /// Interprets one non-blocking receive into `buffer`, leaving out the
    /// sender.
    pub fn get_data(&self, buffer: Vec<u8>, receipt: Receipt) -> (data: Result<
        Option<Vec<u8>>,
        IpcError,
    >)
        requires
            self.is_bound(),
        ensures
            payload_view(data) == polled_data(buffer@, receipt),
    {
        match receipt {
            Ok((len, _)) => {
                if len == 0 {
                    Ok(None)
                } else {
                    Ok(Some(keep(buffer, len)))
                }
            },
            Err(failure) => {
                match failure {
                    IoFailure::WouldBlock => Ok(None),
                    _ => Err(IpcError::Io(failure)),
                }
            },
        }
    }

    /// Interprets the outcome of sending one datagram: the number of bytes
    /// that left. A datagram leaves whole or not at all, and nothing is
    /// tried again.
    pub fn send(&self, outcome: Result<usize, IoFailure>) -> (r: Result<usize, IpcError>)
        requires
            self.is_bound(),
        ensures
            r == sent(outcome),
    {
        match outcome {
            Ok(count) => Ok(count),
            Err(failure) => Err(IpcError::Io(failure)),
        }
    }
}

/// A client on a datagram socket, with a bound on how long it waits for a
/// reply.
#[derive(Clone, Copy, Debug, PartialEq, Eq, Structural)]
pub struct IpcClient {
    addr: Endpoint,
    bound: bool,
    timeout: Option<TimeSpan>,
}

impl IpcClient {
    /// The address that the client binds to.
    pub closed spec fn address(self) -> Endpoint {
        self.addr
    }

    /// A socket was bound.
    pub closed spec fn is_bound(self) -> bool {
        self.bound
    }

    /// How long a receive waits; `None` is for ever.
    pub closed spec fn timeout(self) -> Option<TimeSpan> {
        self.timeout
    }

    /// A timeout that is set is a valid span and has a length.
    pub open spec fn wf(self) -> bool {
        self.timeout() matches Some(span) ==> span.wf() && span.total_nanos() > 0
    }

    /// The timeout that a client waits under until it is told another.
    pub open spec fn default_timeout() -> TimeSpan {
        TimeSpan { secs: 0, nanos: 500_000_000 }
    }

    /// A client for `sock_addr`, not yet bound. A port of 0 leaves the
    /// choice of the port to the operating system.
    pub fn new(sock_addr: Endpoint) -> (client: Self)
        ensures
            client.wf(),
            client.address() == sock_addr,
            !client.is_bound(),
            client.timeout() == Some(Self::default_timeout()),
    {
        IpcClient {
            addr: sock_addr,
            bound: false,
            timeout: Some(TimeSpan::from_millis(DEFAULT_TIMEOUT_MILLIS)),
        }
    }

    /// The address that the client binds to.
    pub fn addr(&self) -> (addr: Endpoint)
        ensures
            addr == self.address(),
    {
        self.addr
    }

    /// Tells whether a socket was bound.
    pub fn bound(&self) -> (bound: bool)
        ensures
            bound == self.is_bound(),
    {
        self.bound
    }

    /// Records the attempt to bind a socket to the client's address and to
    /// give it the client's read timeout.
    ///
    /// A client binds once: on a bound client the call fails with
    /// `AlreadyBound`, whatever the attempt gave. Otherwise a failed
    /// attempt is a `Bind` error and leaves the client unbound. A fresh
    /// socket waits under the default timeout, so that no receive hangs
    /// for ever.
    pub fn bind(&mut self, attempt: Result<(), IoFailure>) -> (r: Result<(), IpcError>)
        requires
            old(self).wf(),
        ensures
            final(self).wf(),
            final(self).address() == old(self).address(),
            r == binding(old(self).is_bound(), attempt),
            final(self).is_bound() == (old(self).is_bound() || attempt is Ok),
            final(self).timeout() == if r is Ok {
                Some(Self::default_timeout())
            } else {
                old(self).timeout()
            },
    {
        if self.bound {
            return Err(IpcError::AlreadyBound);
        }
        match attempt {
            Ok(_) => {
                self.bound = true;
                self.timeout = Some(TimeSpan::from_millis(DEFAULT_TIMEOUT_MILLIS));
                Ok(())
            },
            Err(failure) => Err(IpcError::Bind(failure)),
        }
    }

    /// Interprets the outcome of sending one datagram: the number of bytes
    /// that left. A datagram leaves whole or not at all, and nothing is
    /// tried again.
    pub fn send(&self, outcome: Result<usize, IoFailure>) -> (r: Result<usize, IpcError>)
        requires
            self.is_bound(),
        ensures
            r == sent(outcome),
    {
        match outcome {
            Ok(count) => Ok(count),
            Err(failure) => Err(IpcError::Io(failure)),
        }
    }

    /// Interprets a send and the blocking receive into `buffer` that
    /// follows it.
    ///
    /// A send that failed gives its failure, and nothing is received: the
    /// caller makes the receive only after a send that left, and hands in
    /// no receipt otherwise. The first datagram that arrives is the reply,
    /// whatever its source: the caller compares the source with the peer
    /// it expects. A wait that ran out is the `Timeout` error.
    pub fn send_wait_response(
        &self,
        sent: Result<usize, IoFailure>,
        buffer: Vec<u8>,
        receipt: Option<Receipt>,
    ) -> (delivery: Delivery)
        requires
            self.is_bound(),
            sent is Ok ==> receipt is Some,
        ensures
            delivery_view(delivery) == exchanged(sent, buffer@, receipt),
    {
        match sent {
            Err(failure) => Err(IpcError::Io(failure)),
            Ok(_) => match receipt.unwrap() {
                Ok((len, source)) => {
                    if len == 0 {
                        Ok(None)
                    } else {
                        Ok(Some((source, keep(buffer, len))))
                    }
                },
                Err(failure) => {
                    if failure.pending() {
                        Err(IpcError::Timeout)
                    } else {
                        Err(IpcError::Io(failure))
                    }
                },
            },
        }
    }

    /// Sets how long a receive waits; `None` is for ever. A span of no
    /// length is refused with `ZeroTimeout` and changes nothing.
    pub fn set_read_timeout(&mut self, duration: Option<TimeSpan>) -> (r: Result<(), IpcError>)
        requires
            old(self).wf(),
            old(self).is_bound(),
            duration matches Some(span) ==> span.wf(),
        ensures
            final(self).wf(),
            final(self).address() == old(self).address(),
            final(self).is_bound(),
            r == timeout_change(duration),
            final(self).timeout() == if r is Ok {
                duration
            } else {
                old(self).timeout()
            },
    {
        match duration {
            Some(span) => {
                if span.is_zero() {
                    return Err(IpcError::ZeroTimeout);
                }
            },
            None => {},
        }
        self.timeout = duration;
        Ok(())
    }

    /// How long a receive waits; `None` is for ever.
    pub fn read_timeout(&self) -> (duration: Option<TimeSpan>)
        requires
            self.wf(),
            self.is_bound(),
        ensures
            duration == self.timeout(),
            duration matches Some(span) ==> span.wf() && span.total_nanos() > 0,
    {
        self.timeout
    }
}

} // verus!
