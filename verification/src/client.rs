//! The client's side of the protocol: the frames of each request, and what
//! the frames of a reply mean.

use vstd::prelude::*;
use vstd::utf8::{encode_utf8, encode_utf8_decode_utf8, encode_utf8_valid_utf8};
use crate::protocol::{
    Failure, ProtocolError, ReplyView, RequestView, failure_text, lemma_tags_differ, parse,
    reply_frames,
};
use crate::server::{get_reply, put_reply};
use crate::store::StoreError;
use crate::value::{PutOutcome, Stamped, Value, value_view};
use crate::wire::{
    be_bytes, be_value, bytes_eq, frame_of, frames, lemma_be_bytes_len,
    lemma_be_value_fits, lemma_be_value_of_be_bytes, lossy_text, read_u64, text_of, write_u64,
};

verus! {

/// Why a reply could not be taken as an answer.
#[derive(Debug, PartialEq, Eq)]
pub enum ClientError {
    /// The reply has no frames.
    EmptyReply,
    /// An `OK` reply to a read without an eight-byte timestamp and a payload.
    Malformed,
    /// The server answered `ERR`, with this text.
    Server(String),
    /// The first frame is no reply tag; this is its text.
    Unexpected(String),
}

/// A client error, to the specification.
pub enum ClientErrorView {
    EmptyReply,
    Malformed,
    Server(Seq<char>),
    Unexpected(Seq<char>),
}

impl View for ClientError {
    type V = ClientErrorView;

    open spec fn view(&self) -> ClientErrorView {
        match self {
            ClientError::EmptyReply => ClientErrorView::EmptyReply,
            ClientError::Malformed => ClientErrorView::Malformed,
            ClientError::Server(text) => ClientErrorView::Server(text@),
            ClientError::Unexpected(text) => ClientErrorView::Unexpected(text@),
        }
    }
}

/// The frames of a write request.
pub open spec fn put_request_frames(key: Seq<char>, ts: u64, data: Seq<u8>) -> Seq<Seq<u8>> {
    seq![encode_utf8("PUT"@), encode_utf8(key), be_bytes(ts as nat, 8), data]
}

/// The frames of a read request.
pub open spec fn get_request_frames(key: Seq<char>) -> Seq<Seq<u8>> {
    seq![encode_utf8("GET"@), encode_utf8(key)]
}

/// Builds the request that writes `data` under `key` with timestamp `ts`.
pub fn put_request(key: &str, ts: u64, data: &[u8]) -> (msg: Vec<Vec<u8>>)
    ensures
        frames(msg@) == put_request_frames(key@, ts, data@),
{
    let mut msg: Vec<Vec<u8>> = Vec::with_capacity(4);
    msg.push(frame_of("PUT"));
    msg.push(frame_of(key));
    msg.push(write_u64(ts));
    msg.push(vstd::slice::slice_to_vec(data));
    proof {
        assert(frames(msg@) =~= put_request_frames(key@, ts, data@));
    }
    msg
}

/// Builds the request that reads `key`.
pub fn get_request(key: &str) -> (msg: Vec<Vec<u8>>)
    ensures
        frames(msg@) == get_request_frames(key@),
{
    let mut msg: Vec<Vec<u8>> = Vec::with_capacity(2);
    msg.push(frame_of("GET"));
    msg.push(frame_of(key));
    proof {
        assert(frames(msg@) =~= get_request_frames(key@));
    }
    msg
}

/// The text that comes with an `ERR` reply: its second frame where that is
/// UTF-8, the empty text otherwise.
pub open spec fn error_text(reply: Seq<Seq<u8>>) -> Seq<char> {
    if reply.len() > 1 {
        lossy_text(reply[1])
    } else {
        Seq::empty()
    }
}

/// What a reply to a write means.
pub open spec fn read_put_reply(reply: Seq<Seq<u8>>) -> Result<PutOutcome, ClientErrorView> {
    if reply.len() == 0 {
        Err(ClientErrorView::EmptyReply)
    } else if reply[0] == encode_utf8("OK"@) {
        Ok(PutOutcome::Stored)
    } else if reply[0] == encode_utf8("STALE"@) {
        Ok(PutOutcome::Stale)
    } else if reply[0] == encode_utf8("ERR"@) {
        Err(ClientErrorView::Server(error_text(reply)))
    } else {
        Err(ClientErrorView::Unexpected(lossy_text(reply[0])))
    }
}

/// What a reply to a read means.
pub open spec fn read_get_reply(reply: Seq<Seq<u8>>) -> Result<Option<Stamped>, ClientErrorView> {
    if reply.len() == 0 {
        Err(ClientErrorView::EmptyReply)
    } else if reply[0] == encode_utf8("MISS"@) {
        Ok(None)
    } else if reply[0] == encode_utf8("OK"@) {
        if reply.len() != 3 || reply[1].len() != 8 {
            Err(ClientErrorView::Malformed)
        } else {
            Ok(Some(Stamped { ts: be_value(reply[1]) as u64, data: reply[2] }))
        }
    } else if reply[0] == encode_utf8("ERR"@) {
        Err(ClientErrorView::Server(error_text(reply)))
    } else {
        Err(ClientErrorView::Unexpected(lossy_text(reply[0])))
    }
}

/// The text of a frame, or the empty text where the frame is not UTF-8.
fn text_or_empty(frame: &[u8]) -> (text: String)
    ensures
        text@ == lossy_text(frame@),
{
    match text_of(frame) {
        Some(text) => text,
        None => String::new(),
    }
}

/// The text that comes with an `ERR` reply.
fn server_text(reply: &[Vec<u8>]) -> (text: String)
    ensures
        text@ == error_text(frames(reply@)),
{
    if reply.len() > 1 {
        text_or_empty(reply[1].as_slice())
    } else {
        String::new()
    }
}

/// The view of what a reply to a write was taken for.
pub open spec fn put_answer_view(r: Result<PutOutcome, ClientError>) -> Result<
    PutOutcome,
    ClientErrorView,
> {
    match r {
        Ok(outcome) => Ok(outcome),
        Err(e) => Err(e@),
    }
}

/// The view of what a reply to a read was taken for.
pub open spec fn get_answer_view(r: Result<Option<Value>, ClientError>) -> Result<
    Option<Stamped>,
    ClientErrorView,
> {
    match r {
        Ok(found) => Ok(value_view(found)),
        Err(e) => Err(e@),
    }
}

/// Takes the reply to a write for what it says.
pub fn parse_put_reply(reply: &[Vec<u8>]) -> (r: Result<PutOutcome, ClientError>)
    ensures
        put_answer_view(r) == read_put_reply(frames(reply@)),
{
    if reply.len() == 0 {
        return Err(ClientError::EmptyReply);
    }
    let tag = reply[0].as_slice();
    if bytes_eq(tag, "OK".as_bytes()) {
        Ok(PutOutcome::Stored)
    } else if bytes_eq(tag, "STALE".as_bytes()) {
        Ok(PutOutcome::Stale)
    } else if bytes_eq(tag, "ERR".as_bytes()) {
        Err(ClientError::Server(server_text(reply)))
    } else {
        Err(ClientError::Unexpected(text_or_empty(tag)))
    }
}

/// Takes the reply to a read for what it says.
pub fn parse_get_reply(reply: &[Vec<u8>]) -> (r: Result<Option<Value>, ClientError>)
    ensures
        get_answer_view(r) == read_get_reply(frames(reply@)),
{
    if reply.len() == 0 {
        return Err(ClientError::EmptyReply);
    }
    let tag = reply[0].as_slice();
    if bytes_eq(tag, "MISS".as_bytes()) {
        Ok(None)
    } else if bytes_eq(tag, "OK".as_bytes()) {
        if reply.len() != 3 {
            return Err(ClientError::Malformed);
        }
        match read_u64(reply[1].as_slice()) {
            Some(ts) => {
                proof {
                    lemma_be_value_fits(reply[1]@);
                }
                Ok(Some(Value { ts, data: reply[2].clone() }))
            },
            None => Err(ClientError::Malformed),
        }
    } else if bytes_eq(tag, "ERR".as_bytes()) {
        Err(ClientError::Server(server_text(reply)))
    } else {
        Err(ClientError::Unexpected(text_or_empty(tag)))
    }
}

/// The server reads every write request as the write it was built from.
pub proof fn lemma_put_request_parses(key: Seq<char>, ts: u64, data: Seq<u8>)
    ensures
        parse(put_request_frames(key, ts, data)) == Ok::<RequestView, ProtocolError>(
            RequestView::Put { key, ts, data },
        ),
{
    encode_utf8_valid_utf8(key);
    encode_utf8_decode_utf8(key);
    lemma_be_bytes_len(ts as nat, 8);
    lemma_be_value_of_be_bytes(ts);
}

/// The server reads every read request as the read it was built from.
pub proof fn lemma_get_request_parses(key: Seq<char>)
    ensures
        parse(get_request_frames(key)) == Ok::<RequestView, ProtocolError>(RequestView::Get { key }),
{
    lemma_tags_differ();
    encode_utf8_valid_utf8(key);
    encode_utf8_decode_utf8(key);
}

/// No failure passes for an answer: the client reads every error reply,
/// to a write or to a read, as the server's error with its text.
pub proof fn lemma_failure_is_read_as_failure(f: Failure)
    ensures
        read_put_reply(reply_frames(ReplyView::Failed(f))) == Err::<PutOutcome, _>(
            ClientErrorView::Server(failure_text(f)),
        ),
        read_get_reply(reply_frames(ReplyView::Failed(f))) == Err::<Option<Stamped>, _>(
            ClientErrorView::Server(failure_text(f)),
        ),
{
    lemma_tags_differ();
    encode_utf8_valid_utf8(failure_text(f));
    encode_utf8_decode_utf8(failure_text(f));
}

/// The client reads every reply to a write as the outcome that the server
/// encoded, and a store failure as the server's error with its text.
pub proof fn lemma_put_reply_round_trip(r: Result<PutOutcome, StoreError>)
    ensures
        read_put_reply(reply_frames(put_reply(r))) == match r {
            Ok(outcome) => Ok::<_, ClientErrorView>(outcome),
            Err(e) => Err(ClientErrorView::Server(failure_text(Failure::Store(e)))),
        },
{
    lemma_tags_differ();
    if let Err(e) = r {
        let text = failure_text(Failure::Store(e));
        encode_utf8_valid_utf8(text);
        encode_utf8_decode_utf8(text);
    }
}

/// The client reads every reply to a read as what the server found, and a
/// store failure as the server's error with its text.
pub proof fn lemma_get_reply_round_trip(r: Result<Option<Stamped>, StoreError>)
    ensures
        read_get_reply(reply_frames(get_reply(r))) == match r {
            Ok(found) => Ok::<_, ClientErrorView>(found),
            Err(e) => Err(ClientErrorView::Server(failure_text(Failure::Store(e)))),
        },
{
    lemma_tags_differ();
    match r {
        Ok(Some(v)) => {
            lemma_be_bytes_len(v.ts as nat, 8);
            lemma_be_value_of_be_bytes(v.ts);
        },
        Ok(None) => {},
        Err(e) => {
            let text = failure_text(Failure::Store(e));
            encode_utf8_valid_utf8(text);
            encode_utf8_decode_utf8(text);
        },
    }
}

} // verus!
