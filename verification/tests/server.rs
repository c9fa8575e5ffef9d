use kvz::protocol::{Failure, ProtocolError, Reply, Request};
use kvz::server::{apply, dispatch, handle, reply_to_get, reply_to_put, serve};
use kvz::shard::Shard;
use kvz::store::{ShardedStore, StoreError};
use kvz::value::{PutOutcome, Value};

fn msg(frames: &[&[u8]]) -> Vec<Vec<u8>> {
    frames.iter().map(|f| f.to_vec()).collect()
}

fn put(key: &str, ts: u64, data: &[u8]) -> Vec<Vec<u8>> {
    msg(&[b"PUT", key.as_bytes(), &ts.to_be_bytes(), data])
}

fn get(key: &str) -> Vec<Vec<u8>> {
    msg(&[b"GET", key.as_bytes()])
}

#[test]
fn scenario_on_an_owned_store() {
    let mut store = Shard::new();
    assert_eq!(serve(&mut store, &put("foo", 100, b"abc")), msg(&[b"OK"]));
    assert_eq!(
        serve(&mut store, &get("foo")),
        msg(&[b"OK", &[0, 0, 0, 0, 0, 0, 0, 100], b"abc"])
    );
    assert_eq!(serve(&mut store, &put("foo", 50, b"old")), msg(&[b"STALE"]));
    assert_eq!(
        serve(&mut store, &get("foo")),
        msg(&[b"OK", &[0, 0, 0, 0, 0, 0, 0, 100], b"abc"])
    );
    assert_eq!(serve(&mut store, &get("bar")), msg(&[b"MISS"]));
    assert_eq!(
        serve(&mut store, &msg(&[b"PUT", b"bar", &7u64.to_be_bytes()])),
        msg(&[b"ERR", b"PUT expects 4 frames"])
    );
    assert_eq!(serve(&mut store, &get("bar")), msg(&[b"MISS"]));
}

#[test]
fn scenario_on_the_shared_store() {
    let store = ShardedStore::new(64);
    assert_eq!(handle(&store, &put("foo", 100, b"abc")), msg(&[b"OK"]));
    assert_eq!(handle(&store, &get("foo")), msg(&[b"OK", &[0, 0, 0, 0, 0, 0, 0, 100], b"abc"]));
    assert_eq!(handle(&store, &put("foo", 50, b"old")), msg(&[b"STALE"]));
    assert_eq!(handle(&store, &get("foo")), msg(&[b"OK", &[0, 0, 0, 0, 0, 0, 0, 100], b"abc"]));
    assert_eq!(handle(&store, &get("bar")), msg(&[b"MISS"]));
    assert_eq!(
        handle(&store, &msg(&[b"PUT", b"bar", &7u64.to_be_bytes()])),
        msg(&[b"ERR", b"PUT expects 4 frames"])
    );
    assert_eq!(handle(&store, &get("bar")), msg(&[b"MISS"]));
}

#[test]
fn tie_over_the_wire() {
    let store = ShardedStore::new(3);
    assert_eq!(handle(&store, &put("k", 9, b"d1")), msg(&[b"OK"]));
    assert_eq!(handle(&store, &put("k", 9, b"d2")), msg(&[b"OK"]));
    assert_eq!(handle(&store, &get("k")), msg(&[b"OK", &9u64.to_be_bytes(), b"d2"]));
}

#[test]
fn malformed_requests_are_answered_and_the_handler_goes_on() {
    let store = ShardedStore::new(4);
    assert_eq!(handle(&store, &[]), msg(&[b"ERR", b"empty message"]));
    assert_eq!(handle(&store, &msg(&[b"DEL", b"k"])), msg(&[b"ERR", b"unknown command"]));
    assert_eq!(handle(&store, &msg(&[b"GET"])), msg(&[b"ERR", b"GET expects 2 frames"]));
    assert_eq!(handle(&store, &msg(&[b"GET", &[0xff]])), msg(&[b"ERR", b"key not utf-8"]));
    assert_eq!(
        handle(&store, &msg(&[b"PUT", &[0xff], &[0; 8], b"x"])),
        msg(&[b"ERR", b"key not utf-8"])
    );
    assert_eq!(
        handle(&store, &msg(&[b"PUT", b"k", &[0; 4], b"x"])),
        msg(&[b"ERR", b"timestamp must be 8 bytes (u64 BE)"])
    );
    assert_eq!(handle(&store, &get("k")), msg(&[b"MISS"]));
    assert_eq!(handle(&store, &put("k", 1, b"x")), msg(&[b"OK"]));
    assert_eq!(handle(&store, &get("k")), msg(&[b"OK", &1u64.to_be_bytes(), b"x"]));
}

#[test]
fn malformed_requests_leave_an_owned_store_alone() {
    let mut store = Shard::new();
    serve(&mut store, &put("k", 5, b"v"));
    assert_eq!(serve(&mut store, &[]), msg(&[b"ERR", b"empty message"]));
    assert_eq!(
        serve(&mut store, &msg(&[b"PUT", b"k", &[0; 7], b"w"])),
        msg(&[b"ERR", b"timestamp must be 8 bytes (u64 BE)"])
    );
    assert_eq!(serve(&mut store, &msg(&[b"XYZ"])), msg(&[b"ERR", b"unknown command"]));
    assert_eq!(store.get("k"), Some(Value { ts: 5, data: b"v".to_vec() }));
}

#[test]
fn binary_payloads_pass_unchanged() {
    let store = ShardedStore::new(2);
    let data: Vec<u8> = (0..=255u8).collect();
    assert_eq!(handle(&store, &put("bin", 1, &data)), msg(&[b"OK"]));
    assert_eq!(handle(&store, &get("bin")), msg(&[b"OK", &1u64.to_be_bytes(), &data]));
}

#[test]
fn replies_to_what_the_store_returned() {
    assert_eq!(reply_to_put(Ok(PutOutcome::Stored)), Reply::Stored);
    assert_eq!(reply_to_put(Ok(PutOutcome::Stale)), Reply::Stale);
    assert_eq!(
        reply_to_put(Err(StoreError::Poisoned)),
        Reply::Failed(Failure::Store(StoreError::Poisoned))
    );
    assert_eq!(reply_to_get(Ok(None)), Reply::Miss);
    assert_eq!(
        reply_to_get(Ok(Some(Value { ts: 3, data: vec![1] }))),
        Reply::Found(Value { ts: 3, data: vec![1] })
    );
    assert_eq!(
        reply_to_get(Err(StoreError::Poisoned)),
        Reply::Failed(Failure::Store(StoreError::Poisoned))
    );
    assert_ne!(Reply::Failed(Failure::Protocol(ProtocolError::EmptyMessage)), Reply::Miss);
}

#[test]
fn apply_and_dispatch_carry_requests_out() {
    let mut owned = Shard::new();
    let shared = ShardedStore::new(8);
    let write = || Request::Put { key: "k".to_string(), ts: 2, data: b"v".to_vec() };
    let older = || Request::Put { key: "k".to_string(), ts: 1, data: b"u".to_vec() };
    let read = || Request::Get { key: "k".to_string() };
    assert_eq!(apply(&mut owned, read()), Reply::Miss);
    assert_eq!(dispatch(&shared, read()), Reply::Miss);
    assert_eq!(apply(&mut owned, write()), Reply::Stored);
    assert_eq!(dispatch(&shared, write()), Reply::Stored);
    assert_eq!(apply(&mut owned, older()), Reply::Stale);
    assert_eq!(dispatch(&shared, older()), Reply::Stale);
    assert_eq!(apply(&mut owned, read()), Reply::Found(Value { ts: 2, data: b"v".to_vec() }));
    assert_eq!(dispatch(&shared, read()), Reply::Found(Value { ts: 2, data: b"v".to_vec() }));
}
