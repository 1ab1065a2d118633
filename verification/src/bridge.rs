//! The frontend bridge's framing of the Core socket stream: bytes are
//! assembled into newline-terminated UTF-8 messages, each at most
//! `MAX_MESSAGE_BYTES` long, and an outgoing message is checked before it
//! is sent. The socket, its worker and the engine binding are the caller's.
use vstd::prelude::*;
use vstd::utf8::{decode_utf8, valid_utf8};

use crate::ipc::utf8_string;
use crate::protocol::MAX_MESSAGE_BYTES;

verus! {

pub const NOT_UTF8: &'static str = "message is not UTF-8";
pub const TOO_LARGE: &'static str = "message exceeds 64 KiB";

/// Why a chunk could not be framed.
#[derive(Debug, Clone, Copy, PartialEq, Eq, Structural)]
pub enum FrameError {
    NotUtf8,
    TooLarge,
}

/// The outcome of feeding `chunk` to an accumulator holding `pending`,
/// with `lines` completed so far: the completed messages or the error, and
/// what is pending afterwards.
pub open spec fn accumulate(pending: Seq<u8>, chunk: Seq<u8>, lines: Seq<Seq<char>>) -> (Result<Seq<Seq<char>>, FrameError>, Seq<u8>)
    decreases chunk.len(),
{
    if chunk.len() == 0 {
        (Ok(lines), pending)
    } else if chunk[0] == 10u8 {
        if valid_utf8(pending) {
            accumulate(Seq::empty(), chunk.drop_first(), lines.push(decode_utf8(pending)))
        } else {
            (Err(FrameError::NotUtf8), Seq::empty())
        }
    } else if pending.len() + 1 > MAX_MESSAGE_BYTES {
        (Err(FrameError::TooLarge), pending.push(chunk[0]))
    } else {
        accumulate(pending.push(chunk[0]), chunk.drop_first(), lines)
    }
}

pub open spec fn error_text(e: FrameError) -> &'static str {
    match e {
        FrameError::NotUtf8 => NOT_UTF8,
        FrameError::TooLarge => TOO_LARGE,
    }
}

pub open spec fn string_views(v: Seq<String>) -> Seq<Seq<char>> {
    v.map_values(|s: String| s@)
}

/// Bytes received so far that do not yet end a message.
pub struct LineAccumulator {
    pub bytes: Vec<u8>,
}

impl LineAccumulator {
    pub fn new() -> (a: Self)
        ensures
            a.bytes@ == Seq::<u8>::empty(),
    {
        LineAccumulator { bytes: Vec::new() }
    }

    /// Feeds received bytes: every newline completes a message, which must
    /// be UTF-8; a message that grows past `MAX_MESSAGE_BYTES` is refused.
    /// On an error the messages completed by this chunk are dropped.
    pub fn push(&mut self, chunk: &[u8]) -> (r: Result<Vec<String>, &'static str>)
        ensures
            ({
                let (outcome, rest) = accumulate(old(self).bytes@, chunk@, Seq::empty());
                &&& final(self).bytes@ == rest
                &&& match outcome {
                    Ok(lines) => r matches Ok(v) && string_views(v@) == lines,
                    Err(e) => r == Err::<Vec<String>, &'static str>(error_text(e)),
                }
            }),
    {
        let mut lines: Vec<String> = Vec::new();
        let mut i: usize = 0;
        assert(chunk@.skip(0) =~= chunk@);
        assert(string_views(lines@) =~= Seq::<Seq<char>>::empty());
        while i < chunk.len()
            invariant
                i <= chunk@.len(),
                accumulate(old(self).bytes@, chunk@, Seq::empty()) == accumulate(
                    self.bytes@,
                    chunk@.skip(i as int),
                    string_views(lines@),
                ),
            decreases chunk@.len() - i,
        {
            let byte = chunk[i];
            assert(chunk@.skip(i as int)[0] == byte);
            assert(chunk@.skip(i as int).drop_first() =~= chunk@.skip(i + 1));
            if byte == 10u8 {
                let mut taken: Vec<u8> = Vec::new();
                std::mem::swap(&mut taken, &mut self.bytes);
                match utf8_string(taken) {
                    Some(line) => {
                        let ghost prev = string_views(lines@);
                        lines.push(line);
                        assert(string_views(lines@) =~= prev.push(line@));
                        assert(self.bytes@ =~= Seq::<u8>::empty());
                    },
                    None => {
                        assert(self.bytes@ =~= Seq::<u8>::empty());
                        return Err(NOT_UTF8);
                    },
                }
            } else {
                self.bytes.push(byte);
                if self.bytes.len() > MAX_MESSAGE_BYTES {
                    return Err(TOO_LARGE);
                }
            }
            i = i + 1;
        }
        Ok(lines)
    }
}

/// Why an outgoing message is refused before it is sent.
#[derive(Debug, Clone, Copy, PartialEq, Eq, Structural)]
pub enum SendRefusal {
    ContainsNewline,
    TooLarge,
}

impl SendRefusal {
    /// The transport error code and message reported for the refusal.
    pub fn code(&self) -> (m: &'static str)
        ensures
            m@ == (match *self {
            SendRefusal::ContainsNewline => "invalid_payload"@,
            SendRefusal::TooLarge => "message_too_large"@,
        }),
    {
        match self {
            SendRefusal::ContainsNewline => "invalid_payload",
            SendRefusal::TooLarge => "message_too_large",
        }
    }

    pub fn message(&self) -> (m: &'static str)
        ensures
            m@ == (match *self {
            SendRefusal::ContainsNewline => "payload cannot contain a newline"@,
            SendRefusal::TooLarge => "payload exceeds 64 KiB"@,
        }),
    {
        match self {
            SendRefusal::ContainsNewline => "payload cannot contain a newline",
            SendRefusal::TooLarge => "payload exceeds 64 KiB",
        }
    }
}

/// Whether an outgoing message may be sent: it must not contain a newline
/// (which frames messages) and must fit `MAX_MESSAGE_BYTES`.
pub fn check_outgoing(payload: &str) -> (r: Result<(), SendRefusal>)
    ensures
        r == (if payload@.contains('\n') {
            Err(SendRefusal::ContainsNewline)
        } else if crate::protocol::byte_len(payload@) > MAX_MESSAGE_BYTES {
            Err(SendRefusal::TooLarge)
        } else {
            Ok(())
        }),
{
    let chars = crate::text::chars_of(payload);
    let mut i: usize = 0;
    while i < chars.len()
        invariant
            i <= chars@.len(),
            chars@ == payload@,
            forall|j: int| 0 <= j < i ==> chars@[j] != '\n',
        decreases chars@.len() - i,
    {
        if chars[i] == '\n' {
            assert(payload@[i as int] == '\n');
            return Err(SendRefusal::ContainsNewline);
        }
        i = i + 1;
    }
    assert(!payload@.contains('\n'));
    if payload.len() > MAX_MESSAGE_BYTES {
        return Err(SendRefusal::TooLarge);
    }
    Ok(())
}

} // verus!
