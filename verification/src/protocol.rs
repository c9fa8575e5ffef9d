//! The request/reply protocol: what a multi-part message asks for, and the
//! frames of each reply.

use vstd::prelude::*;
use vstd::utf8::{decode_utf8, encode_utf8, is_ascii_chars_encode_utf8, valid_utf8};
use crate::store::StoreError;
use crate::value::{Stamped, Value};
use crate::wire::{be_bytes, be_value, bytes_eq, frame_of, frames, read_u64, text_of, write_u64, lemma_be_value_fits};

verus! {

/// A request that passed validation.
#[derive(Debug, PartialEq, Eq)]
pub enum Request {
    /// Store `data` under `key` unless a later timestamp is stored.
    Put { key: String, ts: u64, data: Vec<u8> },
    /// Fetch the value stored under `key`.
    Get { key: String },
}

/// A valid request, to the specification.
pub enum RequestView {
    Put { key: Seq<char>, ts: u64, data: Seq<u8> },
    Get { key: Seq<char> },
}

impl View for Request {
    type V = RequestView;

    open spec fn view(&self) -> RequestView {
        match self {
            Request::Put { key, ts, data } => RequestView::Put { key: key@, ts: *ts, data: data@ },
            Request::Get { key } => RequestView::Get { key: key@ },
        }
    }
}

/// Why a message is not a valid request.
#[derive(Clone, Copy, Debug, PartialEq, Eq, Structural)]
pub enum ProtocolError {
    /// The message has no frames.
    EmptyMessage,
    /// The first frame is neither `PUT` nor `GET`.
    UnknownCommand,
    /// A `PUT` that does not have exactly four frames.
    PutFrameCount,
    /// A `GET` that does not have exactly two frames.
    GetFrameCount,
    /// The key frame is not UTF-8.
    KeyNotText,
    /// The timestamp frame is not exactly eight bytes.
    TimestampWidth,
}

/// Why a request was answered with an error.
#[derive(Clone, Copy, Debug, PartialEq, Eq, Structural)]
pub enum Failure {
    /// The message was not a valid request; the store was not touched.
    Protocol(ProtocolError),
    /// The store could not carry the request out.
    Store(StoreError),
}

/// The answer to a request.
#[derive(Debug, PartialEq, Eq)]
pub enum Reply {
    /// The write was accepted.
    Stored,
    /// The write was rejected: a later value is stored.
    Stale,
    /// The read found a value.
    Found(Value),
    /// The read found nothing.
    Miss,
    /// The request failed.
    Failed(Failure),
}

/// An answer, to the specification.
pub enum ReplyView {
    Stored,
    Stale,
    Found(Stamped),
    Miss,
    Failed(Failure),
}

impl View for Reply {
    type V = ReplyView;

    open spec fn view(&self) -> ReplyView {
        match self {
            Reply::Stored => ReplyView::Stored,
            Reply::Stale => ReplyView::Stale,
            Reply::Found(v) => ReplyView::Found(v@),
            Reply::Miss => ReplyView::Miss,
            Reply::Failed(f) => ReplyView::Failed(*f),
        }
    }
}

/// The request that `msg` spells, or the first rule it breaks. The rules
/// are tried in this order: the message has a frame; its first frame names
/// a command; the command has its number of frames; the key is UTF-8; the
/// timestamp of a `PUT` is eight bytes wide.
pub open spec fn parse(msg: Seq<Seq<u8>>) -> Result<RequestView, ProtocolError> {
    if msg.len() == 0 {
        Err(ProtocolError::EmptyMessage)
    } else if msg[0] == encode_utf8("PUT"@) {
        if msg.len() != 4 {
            Err(ProtocolError::PutFrameCount)
        } else if !valid_utf8(msg[1]) {
            Err(ProtocolError::KeyNotText)
        } else if msg[2].len() != 8 {
            Err(ProtocolError::TimestampWidth)
        } else {
            Ok(
                RequestView::Put {
                    key: decode_utf8(msg[1]),
                    ts: be_value(msg[2]) as u64,
                    data: msg[3],
                },
            )
        }
    } else if msg[0] == encode_utf8("GET"@) {
        if msg.len() != 2 {
            Err(ProtocolError::GetFrameCount)
        } else if !valid_utf8(msg[1]) {
            Err(ProtocolError::KeyNotText)
        } else {
            Ok(RequestView::Get { key: decode_utf8(msg[1]) })
        }
    } else {
        Err(ProtocolError::UnknownCommand)
    }
}

/// The view of a parse result.
pub open spec fn parsed_view(r: Result<Request, ProtocolError>) -> Result<
    RequestView,
    ProtocolError,
> {
    match r {
        Ok(req) => Ok(req@),
        Err(e) => Err(e),
    }
}

/// Validates a message and extracts the request it spells.
pub fn parse_request(msg: &[Vec<u8>]) -> (r: Result<Request, ProtocolError>)
    ensures
        parsed_view(r) == parse(frames(msg@)),
{
    if msg.len() == 0 {
        return Err(ProtocolError::EmptyMessage);
    }
    if bytes_eq(msg[0].as_slice(), "PUT".as_bytes()) {
        if msg.len() != 4 {
            return Err(ProtocolError::PutFrameCount);
        }
        let key = match text_of(msg[1].as_slice()) {
            Some(key) => key,
            None => {
                return Err(ProtocolError::KeyNotText);
            },
        };
        let ts = match read_u64(msg[2].as_slice()) {
            Some(ts) => ts,
            None => {
                return Err(ProtocolError::TimestampWidth);
            },
        };
        proof {
            lemma_be_value_fits(msg[2]@);
        }
        Ok(Request::Put { key, ts, data: msg[3].clone() })
    } else if bytes_eq(msg[0].as_slice(), "GET".as_bytes()) {
        if msg.len() != 2 {
            return Err(ProtocolError::GetFrameCount);
        }
        match text_of(msg[1].as_slice()) {
            Some(key) => Ok(Request::Get { key }),
            None => Err(ProtocolError::KeyNotText),
        }
    } else {
        Err(ProtocolError::UnknownCommand)
    }
}

/// The text that reports a failure to the client.
pub open spec fn failure_text(f: Failure) -> Seq<char> {
    match f {
        Failure::Protocol(ProtocolError::EmptyMessage) => "empty message"@,
        Failure::Protocol(ProtocolError::UnknownCommand) => "unknown command"@,
        Failure::Protocol(ProtocolError::PutFrameCount) => "PUT expects 4 frames"@,
        Failure::Protocol(ProtocolError::GetFrameCount) => "GET expects 2 frames"@,
        Failure::Protocol(ProtocolError::KeyNotText) => "key not utf-8"@,
        Failure::Protocol(ProtocolError::TimestampWidth) => "timestamp must be 8 bytes (u64 BE)"@,
        Failure::Store(StoreError::Poisoned) => "store error: store poisoned"@,
    }
}

impl Failure {
    /// The text that reports this failure to the client.
    pub fn message(&self) -> (text: &'static str)
        ensures
            text@ == failure_text(*self),
    {
        match self {
            Failure::Protocol(ProtocolError::EmptyMessage) => "empty message",
            Failure::Protocol(ProtocolError::UnknownCommand) => "unknown command",
            Failure::Protocol(ProtocolError::PutFrameCount) => "PUT expects 4 frames",
            Failure::Protocol(ProtocolError::GetFrameCount) => "GET expects 2 frames",
            Failure::Protocol(ProtocolError::KeyNotText) => "key not utf-8",
            Failure::Protocol(ProtocolError::TimestampWidth) => "timestamp must be 8 bytes (u64 BE)",
            Failure::Store(StoreError::Poisoned) => "store error: store poisoned",
        }
    }
}

/// The frames of a reply.
pub open spec fn reply_frames(reply: ReplyView) -> Seq<Seq<u8>> {
    match reply {
        ReplyView::Stored => seq![encode_utf8("OK"@)],
        ReplyView::Stale => seq![encode_utf8("STALE"@)],
        ReplyView::Found(v) => seq![encode_utf8("OK"@), be_bytes(v.ts as nat, 8), v.data],
        ReplyView::Miss => seq![encode_utf8("MISS"@)],
        ReplyView::Failed(f) => seq![encode_utf8("ERR"@), encode_utf8(failure_text(f))],
    }
}

/// Lays a reply out as the frames that go on the wire.
pub fn encode_reply(reply: &Reply) -> (msg: Vec<Vec<u8>>)
    ensures
        frames(msg@) == reply_frames(reply@),
{
    let mut msg: Vec<Vec<u8>> = Vec::new();
    match reply {
        Reply::Stored => {
            msg.push(frame_of("OK"));
        },
        Reply::Stale => {
            msg.push(frame_of("STALE"));
        },
        Reply::Found(v) => {
            msg.push(frame_of("OK"));
            msg.push(write_u64(v.ts));
            msg.push(v.data.clone());
        },
        Reply::Miss => {
            msg.push(frame_of("MISS"));
        },
        Reply::Failed(f) => {
            msg.push(frame_of("ERR"));
            msg.push(frame_of(f.message()));
        },
    }
    proof {
        assert(frames(msg@) =~= reply_frames(reply@));
    }
    msg
}

/// The tags that open a message are pairwise different byte strings.
pub proof fn lemma_tags_differ()
    ensures
        encode_utf8("PUT"@) != encode_utf8("GET"@),
        encode_utf8("OK"@) != encode_utf8("STALE"@),
        encode_utf8("OK"@) != encode_utf8("MISS"@),
        encode_utf8("OK"@) != encode_utf8("ERR"@),
        encode_utf8("STALE"@) != encode_utf8("MISS"@),
        encode_utf8("STALE"@) != encode_utf8("ERR"@),
        encode_utf8("MISS"@) != encode_utf8("ERR"@),
{
    reveal_strlit("PUT");
    reveal_strlit("GET");
    reveal_strlit("OK");
    reveal_strlit("STALE");
    reveal_strlit("MISS");
    reveal_strlit("ERR");
    is_ascii_chars_encode_utf8("PUT"@);
    is_ascii_chars_encode_utf8("GET"@);
    is_ascii_chars_encode_utf8("OK"@);
    is_ascii_chars_encode_utf8("STALE"@);
    is_ascii_chars_encode_utf8("MISS"@);
    is_ascii_chars_encode_utf8("ERR"@);
    assert("PUT"@[0] as u8 != "GET"@[0] as u8);
}

} // verus!
