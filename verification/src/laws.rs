//! What holds across the functions of this crate.
//!
//! Each law is a proof over the spec functions that the contracts of the
//! endpoints and of the frame functions are stated in.

use vstd::prelude::*;

use crate::echo::{echo_action, exit_word, seconds, EchoActionView};
use crate::endpoint::Endpoint;
use crate::error::{IoFailure, IpcError};
use crate::frame::{
    be_bytes, be_value, framed, lemma_be_value_of_bytes, parsed, progress, within_budget,
};
use crate::ipc::{awaited, exchanged, filled, filled_len, kept, polled, polled_data, Receipt};
use crate::stream::{stream_polled, Phase, PolledView, ReaderView};

verus! {

/// A datagram that fits the buffer comes out of a poll as it went in:
/// what a server receives of a payload of at least one and at most
/// `buffer.len()` bytes is that payload, with its sender.
pub proof fn lemma_datagram_round_trip(payload: Seq<u8>, buffer: Seq<u8>, source: Endpoint)
    requires
        0 < payload.len() <= buffer.len() <= usize::MAX,
    ensures
        polled(filled(buffer, payload), Ok((filled_len(buffer, payload) as usize, source)))
            == Ok::<Option<(Endpoint, Seq<u8>)>, IpcError>(Some((source, payload))),
        awaited(filled(buffer, payload), Ok((filled_len(buffer, payload) as usize, source)))
            == Ok::<Option<(Endpoint, Seq<u8>)>, IpcError>(Some((source, payload))),
        polled_data(filled(buffer, payload), Ok((filled_len(buffer, payload) as usize, source)))
            == Ok::<Option<Seq<u8>>, IpcError>(Some(payload)),
{
    assert(kept(filled(buffer, payload), payload.len()) =~= payload);
}

/// A datagram that does not fit the buffer is cut to the buffer's length,
/// and the poll gives no sign of it: what comes out is the payload's
/// beginning.
pub proof fn lemma_datagram_truncated(payload: Seq<u8>, buffer: Seq<u8>, source: Endpoint)
    requires
        0 < buffer.len() < payload.len(),
        buffer.len() <= usize::MAX,
    ensures
        polled(filled(buffer, payload), Ok((filled_len(buffer, payload) as usize, source)))
            == Ok::<Option<(Endpoint, Seq<u8>)>, IpcError>(
            Some((source, payload.take(buffer.len() as int))),
        ),
{
    assert(kept(filled(buffer, payload), buffer.len()) =~= payload.take(buffer.len() as int));
}

/// What a poll gives is never longer than the buffer.
pub proof fn lemma_delivery_bounded(buffer: Seq<u8>, len: nat)
    ensures
        kept(buffer, len).len() <= buffer.len(),
        kept(buffer, len).len() <= len,
{
}

/// A poll with nothing waiting gives "no message" and no error, whatever
/// the buffer holds and however often it is repeated: the meaning of a
/// poll depends on nothing but that one receive.
pub proof fn lemma_idle_poll(buffer: Seq<u8>)
    ensures
        polled(buffer, Err(IoFailure::WouldBlock)) == Ok::<Option<(Endpoint, Seq<u8>)>, IpcError>(
            None,
        ),
        polled_data(buffer, Err(IoFailure::WouldBlock)) == Ok::<Option<Seq<u8>>, IpcError>(None),
        stream_polled(Err(IoFailure::WouldBlock)) == Ok::<PolledView, IpcError>(
            PolledView::NoConnectionPending,
        ),
{
}

/// Would-block is the only failure that a poll takes for "no message":
/// every other failure of the receive, or of the accept, goes to the
/// caller as it is, a wait that timed out among them.
pub proof fn lemma_poll_failure_propagates(buffer: Seq<u8>, failure: IoFailure)
    requires
        failure != IoFailure::WouldBlock,
    ensures
        polled(buffer, Err(failure)) == Err::<Option<(Endpoint, Seq<u8>)>, IpcError>(
            IpcError::Io(failure),
        ),
        polled_data(buffer, Err(failure)) == Err::<Option<Seq<u8>>, IpcError>(
            IpcError::Io(failure),
        ),
        stream_polled(Err(failure)) == Err::<PolledView, IpcError>(IpcError::Io(failure)),
{
}

/// A send that failed ends the exchange with its failure: whatever a
/// receive might have given has no part in the answer.
pub proof fn lemma_failed_send_ends_exchange(
    failure: IoFailure,
    buffer: Seq<u8>,
    receipt: Option<Receipt>,
)
    ensures
        exchanged(Err(failure), buffer, receipt) == Err::<Option<(Endpoint, Seq<u8>)>, IpcError>(
            IpcError::Io(failure),
        ),
{
}

/// After a send that left, the answer of the exchange is that of the
/// receive.
pub proof fn lemma_exchange_after_send(count: usize, buffer: Seq<u8>, receipt: Receipt)
    ensures
        exchanged(Ok(count), buffer, Some(receipt)) == awaited(buffer, receipt),
{
}

/// A client whose wait ran out gets the `Timeout` error and never a
/// message, whichever of the two signals the transport gave.
pub proof fn lemma_silence_is_timeout(buffer: Seq<u8>, failure: IoFailure)
    requires
        failure.is_pending(),
    ensures
        awaited(buffer, Err(failure)) == Err::<Option<(Endpoint, Seq<u8>)>, IpcError>(
            IpcError::Timeout,
        ),
{
}

/// The exit word reaches the echo server byte for byte and ends it,
/// whoever sent it, where the buffer has room for its four bytes.
pub proof fn lemma_exit_ends_echo(buffer: Seq<u8>, source: Endpoint)
    requires
        4 <= buffer.len() <= usize::MAX,
    ensures
        polled(filled(buffer, exit_word()), Ok((filled_len(buffer, exit_word()) as usize, source)))
            == Ok::<Option<(Endpoint, Seq<u8>)>, IpcError>(Some((source, exit_word()))),
        echo_action(
            polled(
                filled(buffer, exit_word()),
                Ok((filled_len(buffer, exit_word()) as usize, source)),
            ),
        ) == EchoActionView::Shutdown,
{
    lemma_datagram_round_trip(exit_word(), buffer, source);
}

/// Any message but the exit word that fits the buffer is sent back to its
/// sender unchanged, and a client that waits for it with a buffer as
/// large receives what it sent.
pub proof fn lemma_echo_returns_message(
    payload: Seq<u8>,
    server_buffer: Seq<u8>,
    client_buffer: Seq<u8>,
    client: Endpoint,
    server: Endpoint,
)
    requires
        0 < payload.len() <= server_buffer.len() <= usize::MAX,
        payload.len() <= client_buffer.len() <= usize::MAX,
        payload != exit_word(),
    ensures
        echo_action(
            polled(
                filled(server_buffer, payload),
                Ok((filled_len(server_buffer, payload) as usize, client)),
            ),
        ) == (EchoActionView::Echo { to: client, payload, delay_secs: seconds(payload) }),
        awaited(
            filled(client_buffer, payload),
            Ok((filled_len(client_buffer, payload) as usize, server)),
        ) == Ok::<Option<(Endpoint, Seq<u8>)>, IpcError>(Some((server, payload))),
{
    lemma_datagram_round_trip(payload, server_buffer, client);
    lemma_datagram_round_trip(payload, client_buffer, server);
}

/// A frame is four bytes longer than its payload, begins with the
/// payload's length in big-endian order, and goes on with the payload.
pub proof fn lemma_frame_exact(payload: Seq<u8>)
    requires
        payload.len() <= u32::MAX,
    ensures
        framed(payload).len() == payload.len() + 4,
        framed(payload).take(4) == be_bytes(payload.len() as u32),
        be_value(framed(payload)) == payload.len(),
        framed(payload).skip(4) == payload,
{
    lemma_be_value_of_bytes(payload.len() as u32);
    let header = be_bytes(payload.len() as u32);
    assert(framed(payload).take(4) =~= header);
    assert(framed(payload).skip(4) =~= payload);
    assert(framed(payload)[0] == header[0]);
    assert(framed(payload)[1] == header[1]);
    assert(framed(payload)[2] == header[2]);
    assert(framed(payload)[3] == header[3]);
}

/// A frame within the budget parses to its payload; one beyond the budget
/// is refused as oversized.
pub proof fn lemma_frame_round_trip(payload: Seq<u8>, max_size: nat)
    requires
        payload.len() <= u32::MAX,
    ensures
        parsed(framed(payload), max_size) == if within_budget(payload.len(), max_size) {
            Ok::<Seq<u8>, IpcError>(payload)
        } else {
            Err::<Seq<u8>, IpcError>(
                IpcError::OversizedMessage {
                    declared: payload.len() as u32,
                    max_size: max_size as usize,
                },
            )
        },
{
    lemma_frame_exact(payload);
    assert(framed(payload).subrange(4, 4 + payload.len() as int) =~= payload);
}

/// A header beyond the budget is refused whatever follows it: the bytes
/// after the header have no part in the answer.
pub proof fn lemma_oversized_rejected(wire: Seq<u8>, max_size: nat)
    requires
        wire.len() >= 4,
        !within_budget(be_value(wire), max_size),
    ensures
        parsed(wire, max_size) == Err::<Seq<u8>, IpcError>(
            IpcError::OversizedMessage {
                declared: be_value(wire) as u32,
                max_size: max_size as usize,
            },
        ),
        parsed(wire.take(4), max_size) == parsed(wire, max_size),
{
    assert(be_value(wire.take(4)) == be_value(wire));
}

/// A reader that meets a header beyond the budget ends there: it has
/// failed with `OversizedMessage`, wants no further byte, and has taken in
/// the header and not one byte of payload.
pub proof fn lemma_reader_rejects_oversized(reader: ReaderView, chunk: Seq<u8>)
    requires
        reader.wf(),
        progress(reader.feed(chunk).received, reader.budget) is Oversized,
    ensures
        reader.feed(chunk).phase() == Phase::Failed,
        reader.feed(chunk).failure == Some(reader.feed(chunk).oversized()),
        reader.feed(chunk).wanted() == 0,
        reader.feed(chunk).received.len() == 4,
{
    lemma_feed_wf(reader, chunk);
}

/// The value of a header does not depend on what follows it.
pub proof fn lemma_be_value_prefix(head: Seq<u8>, tail: Seq<u8>)
    requires
        head.len() >= 4,
    ensures
        be_value(head + tail) == be_value(head),
{
    assert((head + tail)[0] == head[0]);
    assert((head + tail)[1] == head[1]);
    assert((head + tail)[2] == head[2]);
    assert((head + tail)[3] == head[3]);
}

/// Feeding keeps a reader well formed.
pub proof fn lemma_feed_wf(reader: ReaderView, chunk: Seq<u8>)
    requires
        reader.wf(),
    ensures
        reader.feed(chunk).wf(),
        reader.feed(chunk).budget == reader.budget,
{
    if reader.wanted() != 0 && chunk.len() != 0 {
        let count = reader.accepts(chunk) as int;
        let more = chunk.take(count);
        if reader.received.len() >= 4 {
            lemma_be_value_prefix(reader.received, more);
        }
    }
}

/// A failed read keeps a reader well formed.
pub proof fn lemma_fail_wf(reader: ReaderView, failure: IoFailure)
    requires
        reader.wf(),
    ensures
        reader.fail(failure).wf(),
        reader.fail(failure).received == reader.received,
        reader.fail(failure).budget == reader.budget,
{
}

/// An interrupted read changes nothing: it is read again.
pub proof fn lemma_interrupt_ignored(reader: ReaderView)
    ensures
        reader.fail(IoFailure::Interrupted) == reader,
{
}

/// A reader that has ended takes in nothing more.
pub proof fn lemma_ended_reader_stays(reader: ReaderView, chunk: Seq<u8>, failure: IoFailure)
    requires
        reader.phase() == Phase::Complete || reader.phase() == Phase::Failed,
    ensures
        reader.feed(chunk) == reader,
        reader.fail(failure) == reader,
{
}

/// How many bytes one read brings: at least one, and no more than the
/// reader wants and the stream still holds. Within that, `ask` decides.
pub open spec fn read_size(reader: ReaderView, rest: Seq<u8>, ask: nat) -> nat {
    let most = reader.accepts(rest);
    if ask < 1 {
        1
    } else if ask > most {
        most
    } else {
        ask
    }
}

/// The reader after the reads that `asks` describes, one read for each,
/// on a stream that still holds `rest`. The reading stops where the
/// reader has ended or the stream is used up.
pub open spec fn drive(reader: ReaderView, rest: Seq<u8>, asks: Seq<nat>) -> ReaderView
    decreases asks.len(),
{
    if asks.len() == 0 || reader.wanted() == 0 || rest.len() == 0 {
        reader
    } else {
        let count = read_size(reader, rest, asks[0]) as int;
        drive(reader.feed(rest.take(count)), rest.skip(count), asks.drop_first())
    }
}

/// Reading is independent of how the stream is cut into reads.
///
/// Let a reader have taken in the beginning of `whole`, with `rest` still
/// to come, and let it be read to the end in any reads at all, short or
/// long, and then be told that the stream has ended. What it gives is
/// what parsing `whole` in one piece gives.
pub proof fn lemma_drive_parses(reader: ReaderView, rest: Seq<u8>, asks: Seq<nat>, whole: Seq<u8>)
    requires
        reader.wf(),
        reader.received + rest == whole,
        asks.len() >= rest.len(),
        reader.failure.is_some() ==> progress(reader.received, reader.budget) is Oversized,
    ensures
        drive(reader, rest, asks).feed(Seq::empty()).outcome() == parsed(whole, reader.budget),
    decreases asks.len(),
{
    let max = reader.budget;
    if reader.received.len() >= 4 {
        lemma_be_value_prefix(reader.received, rest);
    }
    if reader.wanted() == 0 {
        if reader.failure.is_none() {
            assert(progress(reader.received, max) is Complete);
            assert(whole.subrange(4, 4 + be_value(whole) as int) =~= reader.received.skip(4));
        }
    } else if rest.len() == 0 {
        assert(whole =~= reader.received);
    } else {
        let count = read_size(reader, rest, asks[0]) as int;
        let chunk = rest.take(count);
        let next = reader.feed(chunk);
        lemma_feed_wf(reader, chunk);
        assert(reader.accepts(chunk) == count);
        assert(chunk.take(count) =~= chunk);
        assert(next.received == reader.received + chunk);
        assert(next.received + rest.skip(count) =~= whole);
        lemma_drive_parses(next, rest.skip(count), asks.drop_first(), whole);
    }
}

/// A fresh reader that is read to the end of a stream, in any reads at
/// all, gives what parsing the stream in one piece gives.
pub proof fn lemma_reader_parses(wire: Seq<u8>, max_size: nat, asks: Seq<nat>)
    requires
        max_size <= usize::MAX,
        asks.len() >= wire.len(),
    ensures
        drive(ReaderView::fresh(max_size), wire, asks).feed(Seq::empty()).outcome() == parsed(
            wire,
            max_size,
        ),
{
    let fresh = ReaderView::fresh(max_size);
    assert(fresh.received + wire =~= wire);
    lemma_drive_parses(fresh, wire, asks, wire);
}

/// A poll of a stream server gives what parsing the stream in one piece
/// gives, in any reads at all: the payload as a message, or the error.
pub proof fn lemma_stream_poll_parses(wire: Seq<u8>, max_size: nat, asks: Seq<nat>)
    requires
        max_size <= usize::MAX,
        asks.len() >= wire.len(),
    ensures
        stream_polled(Ok(drive(ReaderView::fresh(max_size), wire, asks).feed(Seq::empty())))
            == match parsed(wire, max_size) {
            Ok(payload) => Ok::<PolledView, IpcError>(PolledView::Message(payload)),
            Err(error) => Err::<PolledView, IpcError>(error),
        },
{
    lemma_reader_parses(wire, max_size, asks);
}

/// A poll of a stream server refuses a connection whose header is beyond
/// the budget with `OversizedMessage`, in any reads at all and whatever
/// follows the header: it gives no message, whole or in part.
pub proof fn lemma_stream_poll_rejects_oversized(wire: Seq<u8>, max_size: nat, asks: Seq<nat>)
    requires
        max_size <= usize::MAX,
        asks.len() >= wire.len() >= 4,
        !within_budget(be_value(wire), max_size),
    ensures
        stream_polled(Ok(drive(ReaderView::fresh(max_size), wire, asks).feed(Seq::empty())))
            == Err::<PolledView, IpcError>(
            IpcError::OversizedMessage {
                declared: be_value(wire) as u32,
                max_size: max_size as usize,
            },
        ),
{
    lemma_stream_poll_parses(wire, max_size, asks);
    lemma_oversized_rejected(wire, max_size);
}

/// A frame sent over a stream arrives as its payload, in any reads at
/// all, where the budget allows it.
pub proof fn lemma_stream_round_trip(payload: Seq<u8>, max_size: nat, asks: Seq<nat>)
    requires
        payload.len() <= u32::MAX,
        within_budget(payload.len(), max_size),
        max_size <= usize::MAX,
        asks.len() >= payload.len() + 4,
    ensures
        stream_polled(Ok(drive(ReaderView::fresh(max_size), framed(payload), asks).feed(Seq::empty())))
            == Ok::<PolledView, IpcError>(PolledView::Message(payload)),
{
    lemma_frame_exact(payload);
    lemma_frame_round_trip(payload, max_size);
    lemma_reader_parses(framed(payload), max_size, asks);
}

} // verus!
