//! The stream transport: a server that is polled for connections, and the
//! reader that takes one framed message from an accepted connection.
//!
//! A reader moves from awaiting the header to awaiting the payload and
//! ends complete or failed. Its owner reads from the connection and feeds
//! what arrived; the reader says how many bytes it wants next, so that a
//! payload is set aside only after its declared length passed the budget.

use vstd::prelude::*;
use vstd::slice::slice_subrange;

use crate::endpoint::Endpoint;
use crate::error::{IoFailure, IpcError};
use crate::frame::{be_value, decode_header, payload_len, progress, within_budget, Progress};
use crate::ipc::binding;
use crate::timeout::TimeSpan;

verus! {

/// Where a reader stands.
#[derive(Clone, Copy, Debug, PartialEq, Eq, Structural)]
pub enum Phase {
    AwaitingHeader,
    AwaitingPayload,
    Complete,
    Failed,
}

/// A reader as a value: the bytes that it took in, in order, the budget it
/// reads under, and the failure that ended it, if one did.
pub struct ReaderView {
    pub received: Seq<u8>,
    pub budget: nat,
    pub failure: Option<IpcError>,
}

impl ReaderView {
    /// A reader that has taken in nothing.
    pub open spec fn fresh(budget: nat) -> ReaderView {
        ReaderView { received: Seq::empty(), budget, failure: None }
    }

    /// The error that stands for a header beyond the budget.
    pub open spec fn oversized(self) -> IpcError {
        IpcError::OversizedMessage {
            declared: be_value(self.received) as u32,
            max_size: self.budget as usize,
        }
    }

    /// What holds of every reader: it fails as soon as a header is beyond
    /// the budget, with not one byte of payload taken in, and it takes in
    /// nothing beyond the frame's end.
    pub open spec fn wf(self) -> bool {
        &&& self.budget <= usize::MAX
        &&& match progress(self.received, self.budget) {
            Progress::AwaitingHeader => true,
            Progress::AwaitingPayload => true,
            Progress::Oversized => self.received.len() == 4 && self.failure == Some(
                self.oversized(),
            ),
            Progress::Complete => self.received.len() == 4 + be_value(self.received)
                && self.failure.is_none(),
        }
    }

    /// Where the reader stands.
    pub open spec fn phase(self) -> Phase {
        if self.failure.is_some() {
            Phase::Failed
        } else {
            match progress(self.received, self.budget) {
                Progress::AwaitingHeader => Phase::AwaitingHeader,
                Progress::AwaitingPayload => Phase::AwaitingPayload,
                Progress::Complete => Phase::Complete,
                Progress::Oversized => Phase::Failed,
            }
        }
    }

    /// How many bytes the reader takes next: the rest of the header, then
    /// the rest of the payload, and nothing once it has ended.
    pub open spec fn wanted(self) -> nat {
        match self.phase() {
            Phase::AwaitingHeader => (4 - self.received.len()) as nat,
            Phase::AwaitingPayload => (4 + be_value(self.received) - self.received.len()) as nat,
            Phase::Complete => 0,
            Phase::Failed => 0,
        }
    }

    /// How many bytes of `chunk` the reader takes.
    pub open spec fn accepts(self, chunk: Seq<u8>) -> nat {
        if chunk.len() <= self.wanted() {
            chunk.len()
        } else {
            self.wanted()
        }
    }

    /// The reader after one read gave `chunk`.
    ///
    /// A reader that has ended stays as it is. An empty chunk is the end of
    /// the stream: a frame that is still short of its length is truncated.
    /// Otherwise the reader takes what it wanted, and fails if that
    /// completes a header beyond the budget.
    pub open spec fn feed(self, chunk: Seq<u8>) -> ReaderView {
        if self.wanted() == 0 {
            self
        } else if chunk.len() == 0 {
            ReaderView { failure: Some(IpcError::TruncatedMessage), ..self }
        } else {
            let taken = ReaderView {
                received: self.received + chunk.take(self.accepts(chunk) as int),
                ..self
            };
            if progress(taken.received, taken.budget) is Oversized {
                ReaderView { failure: Some(taken.oversized()), ..taken }
            } else {
                taken
            }
        }
    }

    /// The reader after one read failed.
    ///
    /// An interrupted read is read again, so it changes nothing. A wait
    /// that ran out is a timeout. Any other failure ends the reader with
    /// that failure.
    pub open spec fn fail(self, failure: IoFailure) -> ReaderView {
        if self.wanted() == 0 || failure == IoFailure::Interrupted {
            self
        } else if failure.is_pending() {
            ReaderView { failure: Some(IpcError::Timeout), ..self }
        } else {
            ReaderView { failure: Some(IpcError::Io(failure)), ..self }
        }
    }

    /// What the reader has to give when its owner is done with the
    /// connection: the payload of a complete frame, the failure that ended
    /// it, or `TruncatedMessage` for a frame still short of its length.
    pub open spec fn outcome(self) -> Result<Seq<u8>, IpcError> {
        match self.failure {
            Some(error) => Err(error),
            None => match progress(self.received, self.budget) {
                Progress::Complete => Ok(self.received.skip(4)),
                Progress::Oversized => Err(self.oversized()),
                _ => Err(IpcError::TruncatedMessage),
            },
        }
    }
}

/// Takes one framed message from an accepted connection.
pub struct FrameReader {
    max_size: usize,
    header: Vec<u8>,
    expected: usize,
    payload: Vec<u8>,
    failure: Option<IpcError>,
}

impl View for FrameReader {
    type V = ReaderView;

    closed spec fn view(&self) -> ReaderView {
        ReaderView {
            received: self.header@ + self.payload@,
            budget: self.max_size as nat,
            failure: self.failure,
        }
    }
}

impl FrameReader {
    /// How the fields hang together.
    pub closed spec fn inv(self) -> bool {
        &&& self.header@.len() <= 4
        &&& self.header@.len() < 4 ==> self.payload@.len() == 0
        &&& self.header@.len() == 4 && !within_budget(be_value(self.header@), self.max_size as nat)
            ==> self.payload@.len() == 0
        &&& self.header@.len() == 4 && within_budget(be_value(self.header@), self.max_size as nat)
            ==> self.expected == be_value(self.header@) && self.payload@.len() <= self.expected
        &&& self.header@.len() == 4 && self.failure.is_none() ==> within_budget(
            be_value(self.header@),
            self.max_size as nat,
        )
    }

    /// The reader is in a state that its functions lead to.
    pub open spec fn wf(self) -> bool {
        self.inv() && self@.wf()
    }

    /// The header's value is read off the first four bytes received.
    proof fn lemma_header_value(self)
        requires
            self.header@.len() == 4,
        ensures
            be_value(self@.received) == be_value(self.header@),
            self@.received.len() == 4 + self.payload@.len(),
    {
    }

    /// A reader for one connection, under the budget `max_size` for header
    /// and payload together.
    pub fn new(max_size: usize) -> (reader: Self)
        ensures
            reader.wf(),
            reader@ == ReaderView::fresh(max_size as nat),
    {
        let reader = FrameReader {
            max_size,
            header: Vec::new(),
            expected: 0,
            payload: Vec::new(),
            failure: None,
        };
        assert(reader@.received =~= Seq::empty());
        reader
    }

    /// Where the reader stands.
    pub fn phase(&self) -> (phase: Phase)
        requires
            self.wf(),
        ensures
            phase == self@.phase(),
    {
        if self.failure.is_some() {
            Phase::Failed
        } else if self.header.len() < 4 {
            Phase::AwaitingHeader
        } else {
            proof {
                self.lemma_header_value();
            }
            if self.payload.len() < self.expected {
                Phase::AwaitingPayload
            } else {
                Phase::Complete
            }
        }
    }

    /// How many bytes the next read may bring at most; 0 once the reader
    /// has ended.
    pub fn wanted(&self) -> (count: usize)
        requires
            self.wf(),
        ensures
            count == self@.wanted(),
    {
        if self.failure.is_some() {
            0
        } else if self.header.len() < 4 {
            4 - self.header.len()
        } else {
            proof {
                self.lemma_header_value();
            }
            self.expected - self.payload.len()
        }
    }

    /// Takes in what one read gave, and tells how many bytes of it were
    /// taken. An empty chunk stands for the end of the stream.
    pub fn feed(&mut self, chunk: &[u8]) -> (consumed: usize)
        requires
            old(self).wf(),
        ensures
            final(self).wf(),
            final(self)@ == old(self)@.feed(chunk@),
            consumed == if old(self)@.wanted() == 0 {
                0
            } else {
                old(self)@.accepts(chunk@)
            },
    {
        let want: usize = self.wanted();
        if want == 0 {
            return 0;
        }
        if chunk.len() == 0 {
            self.failure = Some(IpcError::TruncatedMessage);
            return 0;
        }
        let count: usize = if chunk.len() <= want {
            chunk.len()
        } else {
            want
        };
        let part: &[u8] = slice_subrange(chunk, 0, count);
        assert(part@ == chunk@.take(count as int));
        if self.header.len() < 4 {
            self.header.extend_from_slice(part);
            assert(self.header@ =~= old(self).header@ + part@);
            assert(self@.received =~= old(self)@.received + part@);
            if self.header.len() == 4 {
                let header: [u8; 4] = [
                    self.header[0],
                    self.header[1],
                    self.header[2],
                    self.header[3],
                ];
                assert(header@ =~= self.header@);
                let declared: u32 = decode_header(&header);
                proof {
                    self.lemma_header_value();
                }
                match payload_len(declared, self.max_size) {
                    Ok(len) => {
                        self.expected = len;
                        self.payload = Vec::with_capacity(len);
                        assert(self@.received =~= old(self)@.received + part@);
                    },
                    Err(error) => {
                        self.failure = Some(error);
                    },
                }
            }
        } else {
            proof {
                self.lemma_header_value();
            }
            self.payload.extend_from_slice(part);
            assert(self.payload@ =~= old(self).payload@ + part@);
            assert(self@.received =~= old(self)@.received + part@);
            proof {
                self.lemma_header_value();
            }
        }
        count
    }

    /// Takes in that one read failed.
    pub fn fail(&mut self, failure: IoFailure)
        requires
            old(self).wf(),
        ensures
            final(self).wf(),
            final(self)@ == old(self)@.fail(failure),
    {
        if self.wanted() == 0 {
            return ;
        }
        match failure {
            IoFailure::Interrupted => {},
            IoFailure::WouldBlock => {
                self.failure = Some(IpcError::Timeout);
            },
            IoFailure::TimedOut => {
                self.failure = Some(IpcError::Timeout);
            },
            _ => {
                self.failure = Some(IpcError::Io(failure));
            },
        }
    }

    /// Ends the reading and gives what came of it.
    pub fn finish(self) -> (r: Result<Vec<u8>, IpcError>)
        requires
            self.wf(),
        ensures
            match r {
                Ok(payload) => self@.outcome() == Ok::<Seq<u8>, IpcError>(payload@),
                Err(error) => self@.outcome() == Err::<Seq<u8>, IpcError>(error),
            },
    {
        match self.failure {
            Some(error) => Err(error),
            None => {
                if self.header.len() < 4 {
                    Err(IpcError::TruncatedMessage)
                } else {
                    proof {
                        self.lemma_header_value();
                    }
                    if self.payload.len() < self.expected {
                        Err(IpcError::TruncatedMessage)
                    } else {
                        assert(self@.received.skip(4) =~= self.payload@);
                        Ok(self.payload)
                    }
                }
            },
        }
    }
}

/// The read timeout of an accepted connection, in milliseconds.
pub const STREAM_TIMEOUT_MILLIS: u64 = 500;

/// The read timeout of an accepted connection: half a second.
pub open spec fn stream_timeout() -> TimeSpan {
    TimeSpan { secs: 0, nanos: 500_000_000 }
}

/// What one poll of a server gave: no connection was waiting, or a
/// connection brought a message. A message of no length is a message.
#[derive(Debug, PartialEq, Eq)]
pub enum Polled {
    NoConnectionPending,
    Message(Vec<u8>),
}

/// What one poll of a server gave, the message taken by its view.
pub enum PolledView {
    NoConnectionPending,
    Message(Seq<u8>),
}

impl View for Polled {
    type V = PolledView;

    open spec fn view(&self) -> PolledView {
        match self {
            Polled::NoConnectionPending => PolledView::NoConnectionPending,
            Polled::Message(payload) => PolledView::Message(payload@),
        }
    }
}

/// The meaning of one non-blocking accept, and of the reading that
/// followed where a connection was accepted.
///
/// No connection waiting is the steady state, not an error: the
/// would-block signal, and no other failure, stands for it, and it is told
/// apart from a message of no length. A connection gives what its reader
/// came to. Every other failure of the accept goes to the caller.
pub open spec fn stream_polled(accepted: Result<ReaderView, IoFailure>) -> Result<
    PolledView,
    IpcError,
> {
    match accepted {
        Ok(reader) => match reader.outcome() {
            Ok(payload) => Ok(PolledView::Message(payload)),
            Err(error) => Err(error),
        },
        Err(failure) => if failure == IoFailure::WouldBlock {
            Ok(PolledView::NoConnectionPending)
        } else {
            Err(IpcError::Io(failure))
        },
    }
}

/// A server on a stream socket: a listener that is polled for
/// connections. Each connection that it accepts carries one framed
/// message.
#[derive(Clone, Copy, Debug, PartialEq, Eq, Structural)]
pub struct IpcServer {
    addr: Endpoint,
    bound: bool,
}

impl IpcServer {
    /// The address that the server binds to.
    pub closed spec fn address(self) -> Endpoint {
        self.addr
    }

    /// A socket was bound and listens, in non-blocking mode.
    pub closed spec fn is_bound(self) -> bool {
        self.bound
    }

    /// A server for `sock_addr`, not yet bound.
    pub fn new(sock_addr: Endpoint) -> (server: Self)
        ensures
            server.address() == sock_addr,
            !server.is_bound(),
    {
        IpcServer { addr: sock_addr, bound: false }
    }

    /// The address that the server binds to.
    pub fn addr(&self) -> (addr: Endpoint)
        ensures
            addr == self.address(),
    {
        self.addr
    }

    /// Tells whether a socket was bound.
    pub fn bound(&self) -> (bound: bool)
        ensures
            bound == self.is_bound(),
    {
        self.bound
    }

    /// Records the attempt to bind a socket to the server's address and to
    /// listen on it without blocking. A server binds once.
    pub fn connect(&mut self, attempt: Result<(), IoFailure>) -> (r: Result<(), IpcError>)
        ensures
            final(self).address() == old(self).address(),
            r == binding(old(self).is_bound(), attempt),
            final(self).is_bound() == (old(self).is_bound() || attempt is Ok),
    {
        if self.bound {
            return Err(IpcError::AlreadyBound);
        }
        match attempt {
            Ok(_) => {
                self.bound = true;
                Ok(())
            },
            Err(failure) => Err(IpcError::Bind(failure)),
        }
    }

    /// The reader for a connection that was just accepted.
    pub fn reader(&self, max_size: usize) -> (reader: FrameReader)
        requires
            self.is_bound(),
        ensures
            reader.wf(),
            reader@ == ReaderView::fresh(max_size as nat),
    {
        FrameReader::new(max_size)
    }

    /// How long a read on an accepted connection waits, so that a peer
    /// that stalls cannot hold the server for ever.
    pub fn read_timeout(&self) -> (span: TimeSpan)
        ensures
            span == stream_timeout(),
    {
        TimeSpan::from_millis(STREAM_TIMEOUT_MILLIS)
    }

    /// Interprets one poll for a message: the failure of the non-blocking
    /// accept, or the reader of the accepted connection once its owner has
    /// read as far as the reader wanted or the stream went.
    pub fn get_data(&self, accepted: Result<FrameReader, IoFailure>) -> (r: Result<Polled, IpcError>)
        requires
            self.is_bound(),
            accepted matches Ok(reader) ==> reader.wf(),
        ensures
            match r {
                Ok(polled) => stream_polled(reader_view(accepted)) == Ok::<PolledView, IpcError>(
                    polled@,
                ),
                Err(error) => stream_polled(reader_view(accepted)) == Err::<PolledView, IpcError>(
                    error,
                ),
            },
    {
        match accepted {
            Ok(reader) => match reader.finish() {
                Ok(payload) => Ok(Polled::Message(payload)),
                Err(error) => Err(error),
            },
            Err(failure) => {
                match failure {
                    IoFailure::WouldBlock => Ok(Polled::NoConnectionPending),
                    _ => Err(IpcError::Io(failure)),
                }
            },
        }
    }
}

/// An accepted reader taken by its view.
pub open spec fn reader_view(accepted: Result<FrameReader, IoFailure>) -> Result<
    ReaderView,
    IoFailure,
> {
    match accepted {
        Ok(reader) => Ok(reader@),
        Err(failure) => Err(failure),
    }
}

} // verus!
