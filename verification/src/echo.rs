//! The decisions of an echo server: what to do with the outcome of each
//! poll.
//!
//! The server sends every message back to its sender. The message `exit`
//! ends it. A message that reads as a number of seconds is answered only
//! after that long, which lets a client meet a peer that is slow.

use vstd::prelude::*;

use crate::endpoint::Endpoint;
use crate::error::IpcError;
use crate::ipc::{Delivery, DeliveryView};

verus! {

/// The size of the buffer that the echo server receives into.
pub const ECHO_BUFFER_SIZE: usize = 512;

/// How long the echo server rests after an answer before it polls again,
/// in milliseconds, unless its owner says otherwise.
pub const ECHO_PAUSE_MILLIS: u64 = 100;

/// The message that ends the server: the four letters of `exit`.
pub open spec fn exit_word() -> Seq<u8> {
    seq![0x65u8, 0x78u8, 0x69u8, 0x74u8]
}

/// The byte is a decimal digit.
pub open spec fn is_digit(byte: u8) -> bool {
    0x30 <= byte <= 0x39
}

/// Every byte is a decimal digit.
pub open spec fn all_digits(text: Seq<u8>) -> bool {
    forall|i: int| 0 <= i < text.len() ==> is_digit(#[trigger] text[i])
}

/// The number that decimal digits spell.
pub open spec fn digits_value(digits: Seq<u8>) -> nat
    decreases digits.len(),
{
    if digits.len() == 0 {
        0
    } else {
        digits_value(digits.drop_last()) * 10 + (digits.last() - 0x30) as nat
    }
}

/// The text without a plus sign in front.
pub open spec fn unsigned(text: Seq<u8>) -> Seq<u8> {
    if text.len() > 0 && text[0] == 0x2b {
        text.skip(1)
    } else {
        text
    }
}

/// The number of seconds that a message reads as: one or more decimal
/// digits, with or without a plus sign in front, that spell a number of
/// 64 bits. Any other message reads as none.
pub open spec fn seconds(text: Seq<u8>) -> Option<u64> {
    let digits = unsigned(text);
    if digits.len() > 0 && all_digits(digits) && digits_value(digits) <= u64::MAX {
        Some(digits_value(digits) as u64)
    } else {
        None
    }
}

/// What the server does next.
#[derive(Debug, PartialEq, Eq)]
pub enum EchoAction {
    /// Poll again at once.
    PollAgain,
    /// Stop serving.
    Shutdown,
    /// Wait `delay_secs` seconds where that is set, send `payload` to
    /// `to`, rest, and poll again.
    Echo { to: Endpoint, payload: Vec<u8>, delay_secs: Option<u64> },
    /// Give up with the error.
    Fail(IpcError),
}

/// What the server does next, the payload taken by its view.
pub enum EchoActionView {
    PollAgain,
    Shutdown,
    Echo { to: Endpoint, payload: Seq<u8>, delay_secs: Option<u64> },
    Fail(IpcError),
}

impl View for EchoAction {
    type V = EchoActionView;

    open spec fn view(&self) -> EchoActionView {
        match self {
            EchoAction::PollAgain => EchoActionView::PollAgain,
            EchoAction::Shutdown => EchoActionView::Shutdown,
            EchoAction::Echo { to, payload, delay_secs } => EchoActionView::Echo {
                to: *to,
                payload: payload@,
                delay_secs: *delay_secs,
            },
            EchoAction::Fail(error) => EchoActionView::Fail(*error),
        }
    }
}

/// The server's answer to the outcome of one poll.
///
/// Nothing received: poll again. The exit word: stop. Any other message
/// goes back to its sender byte for byte, after the seconds that it reads
/// as, if it reads as any. A failed poll ends the server with that error.
pub open spec fn echo_action(delivery: DeliveryView) -> EchoActionView {
    match delivery {
        Ok(None) => EchoActionView::PollAgain,
        Ok(Some((source, payload))) => if payload.len() == 0 {
            EchoActionView::PollAgain
        } else if payload == exit_word() {
            EchoActionView::Shutdown
        } else {
            EchoActionView::Echo { to: source, payload, delay_secs: seconds(payload) }
        },
        Err(error) => EchoActionView::Fail(error),
    }
}

/// A beginning of some digits spells no more than all of them.
proof fn lemma_value_grows(digits: Seq<u8>, count: int)
    requires
        0 <= count <= digits.len(),
    ensures
        digits_value(digits.take(count)) <= digits_value(digits),
    decreases digits.len(),
{
    if count == digits.len() {
        assert(digits.take(count) =~= digits);
    } else {
        assert(digits.drop_last().take(count) =~= digits.take(count));
        lemma_value_grows(digits.drop_last(), count);
    }
}

/// Tells whether a message is the exit word.
pub fn is_exit(message: &[u8]) -> (r: bool)
    ensures
        r == (message@ == exit_word()),
{
    if message.len() != 4 {
        return false;
    }
    let same: bool = message[0] == 0x65 && message[1] == 0x78 && message[2] == 0x69 && message[3]
        == 0x74;
    if same {
        assert(message@ =~= exit_word());
    }
    same
}

/// Reads a message as a number of seconds.
pub fn parse_seconds(text: &[u8]) -> (r: Option<u64>)
    ensures
        r == seconds(text@),
{
    let total: usize = text.len();
    let start: usize = if total > 0 && text[0] == 0x2b {
        1
    } else {
        0
    };
    let ghost digits = unsigned(text@);
    if start == total {
        return None;
    }
    assert(digits =~= text@.skip(start as int));
    let mut value: u64 = 0;
    let mut at: usize = start;
    while at < total
        invariant
            start <= at <= total,
            total == text@.len(),
            digits == unsigned(text@),
            digits == text@.skip(start as int),
            all_digits(digits.take(at - start)),
            value == digits_value(digits.take(at - start)),
        decreases total - at,
    {
        let byte: u8 = text[at];
        let ghost seen = digits.take(at - start + 1);
        proof {
            assert(seen.drop_last() =~= digits.take(at - start));
            assert(seen.last() == byte);
        }
        if byte < 0x30 || byte > 0x39 {
            assert(!is_digit(digits[at - start]));
            return None;
        }
        let digit: u64 = (byte - 0x30) as u64;
        if value > (u64::MAX - digit) / 10 {
            proof {
                assert(digits_value(seen) > u64::MAX);
                lemma_value_grows(digits, at - start + 1);
            }
            return None;
        }
        value = value * 10 + digit;
        at = at + 1;
    }
    assert(digits.take(at - start) =~= digits);
    Some(value)
}

/// Decides what the server does with the outcome of one poll.
pub fn echo_step(delivery: Delivery) -> (action: EchoAction)
    ensures
        action@ == echo_action(crate::ipc::delivery_view(delivery)),
{
    match delivery {
        Ok(None) => EchoAction::PollAgain,
        Ok(Some((source, payload))) => {
            if payload.len() == 0 {
                EchoAction::PollAgain
            } else if is_exit(payload.as_slice()) {
                EchoAction::Shutdown
            } else {
                let delay_secs: Option<u64> = parse_seconds(payload.as_slice());
                EchoAction::Echo { to: source, payload, delay_secs }
            }
        },
        Err(error) => EchoAction::Fail(error),
    }
}

} // verus!
