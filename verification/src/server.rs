//! The request handler: one message in, one store operation at most, one
//! reply out.

use vstd::prelude::*;
use crate::protocol::{
    Failure, Reply, ReplyView, Request, RequestView, encode_reply, parse, parse_request,
    reply_frames,
};
use crate::shard::Shard;
use crate::store::{ShardedStore, StoreError};
use crate::value::{
    PutOutcome, Stamped, Table, Value, lookup, put_outcome, put_table, value_view,
};
use crate::wire::frames;

verus! {

/// The reply that tells the client how its write ended.
pub open spec fn put_reply(r: Result<PutOutcome, StoreError>) -> ReplyView {
    match r {
        Ok(PutOutcome::Stored) => ReplyView::Stored,
        Ok(PutOutcome::Stale) => ReplyView::Stale,
        Err(e) => ReplyView::Failed(Failure::Store(e)),
    }
}

/// The reply that tells the client what its read found.
pub open spec fn get_reply(r: Result<Option<Stamped>, StoreError>) -> ReplyView {
    match r {
        Ok(Some(v)) => ReplyView::Found(v),
        Ok(None) => ReplyView::Miss,
        Err(e) => ReplyView::Failed(Failure::Store(e)),
    }
}

/// The view of what a read of the store returned.
pub open spec fn read_view(r: Result<Option<Value>, StoreError>) -> Result<
    Option<Stamped>,
    StoreError,
> {
    match r {
        Ok(found) => Ok(value_view(found)),
        Err(e) => Err(e),
    }
}

/// The reply to a write, from what the store returned.
pub fn reply_to_put(r: Result<PutOutcome, StoreError>) -> (reply: Reply)
    ensures
        reply@ == put_reply(r),
{
    match r {
        Ok(PutOutcome::Stored) => Reply::Stored,
        Ok(PutOutcome::Stale) => Reply::Stale,
        Err(e) => Reply::Failed(Failure::Store(e)),
    }
}

/// The reply to a read, from what the store returned.
pub fn reply_to_get(r: Result<Option<Value>, StoreError>) -> (reply: Reply)
    ensures
        reply@ == get_reply(read_view(r)),
{
    match r {
        Ok(Some(v)) => Reply::Found(v),
        Ok(None) => Reply::Miss,
        Err(e) => Reply::Failed(Failure::Store(e)),
    }
}

/// What a valid request does to a table, and the reply it gets.
pub open spec fn respond(table: Table, req: RequestView) -> (Table, ReplyView) {
    match req {
        RequestView::Put { key, ts, data } => (
            put_table(table, key, ts, data),
            put_reply(Ok(put_outcome(table, key, ts))),
        ),
        RequestView::Get { key } => (table, get_reply(Ok(lookup(table, key)))),
    }
}

/// One step of the server: the table after `msg` was handled, and the
/// frames sent back. A message that is not a valid request leaves the table
/// as it was and is answered with an error.
pub open spec fn step(table: Table, msg: Seq<Seq<u8>>) -> (Table, Seq<Seq<u8>>) {
    match parse(msg) {
        Ok(req) => (respond(table, req).0, reply_frames(respond(table, req).1)),
        Err(e) => (table, reply_frames(ReplyView::Failed(Failure::Protocol(e)))),
    }
}

/// Carries a valid request out on a store that the caller owns.
pub fn apply(store: &mut Shard, req: Request) -> (reply: Reply)
    ensures
        (final(store)@, reply@) == respond(old(store)@, req@),
{
    match req {
        Request::Put { key, ts, data } => reply_to_put(Ok(store.put(key, ts, data))),
        Request::Get { key } => reply_to_get(Ok(store.get(key.as_str()))),
    }
}

/// Handles one message on a store that the caller owns: validates it,
/// applies it, and returns the frames of the reply.
pub fn serve(store: &mut Shard, msg: &[Vec<u8>]) -> (reply: Vec<Vec<u8>>)
    ensures
        (final(store)@, frames(reply@)) == step(old(store)@, frames(msg@)),
{
    match parse_request(msg) {
        Ok(req) => {
            let reply = apply(store, req);
            encode_reply(&reply)
        },
        Err(e) => encode_reply(&Reply::Failed(Failure::Protocol(e))),
    }
}

/// Whether `reply` is a reply that `req` can get from a store shared with
/// other workers, whose contents at the moment of the operation only the
/// shard's lock decides.
pub open spec fn answers(req: RequestView, reply: ReplyView) -> bool {
    match req {
        RequestView::Put { .. } => exists|r: Result<PutOutcome, StoreError>| reply == put_reply(r),
        RequestView::Get { .. } => exists|r: Result<Option<Stamped>, StoreError>|
            reply == get_reply(r),
    }
}

/// Carries a valid request out on the shared store, under the lock of the
/// one shard that the key belongs to.
pub fn dispatch(store: &ShardedStore, req: Request) -> (reply: Reply)
    ensures
        answers(req@, reply@),
{
    match req {
        Request::Put { key, ts, data } => {
            let r = store.put(key, ts, data);
            reply_to_put(r)
        },
        Request::Get { key } => {
            let r = store.get(key.as_str());
            reply_to_get(r)
        },
    }
}

/// Handles one message of a worker: validates it, applies it to the
/// shared store, and returns the frames of the reply. A message that is
/// not a valid request is answered without touching the store.
pub fn handle(store: &ShardedStore, msg: &[Vec<u8>]) -> (reply: Vec<Vec<u8>>)
    ensures
        match parse(frames(msg@)) {
            Ok(req) => exists|answer: ReplyView|
                answers(req, answer) && frames(reply@) == reply_frames(answer),
            Err(e) => frames(reply@) == reply_frames(ReplyView::Failed(Failure::Protocol(e))),
        },
{
    match parse_request(msg) {
        Ok(req) => {
            let reply = dispatch(store, req);
            encode_reply(&reply)
        },
        Err(e) => encode_reply(&Reply::Failed(Failure::Protocol(e))),
    }
}

} // verus!
