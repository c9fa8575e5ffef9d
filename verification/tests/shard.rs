use kvz::shard::Shard;
use kvz::value::{PutOutcome, Value};

fn value(ts: u64, data: &[u8]) -> Value {
    Value { ts, data: data.to_vec() }
}

#[test]
fn new_shard_holds_nothing() {
    let shard = Shard::new();
    assert_eq!(shard.get("foo"), None);
    assert_eq!(shard.get(""), None);
}

#[test]
fn first_write_is_stored() {
    let mut shard = Shard::new();
    assert_eq!(shard.put("foo".to_string(), 0, b"abc".to_vec()), PutOutcome::Stored);
    assert_eq!(shard.get("foo"), Some(value(0, b"abc")));
}

#[test]
fn older_write_is_stale_and_changes_nothing() {
    let mut shard = Shard::new();
    assert_eq!(shard.put("k".to_string(), 100, b"new".to_vec()), PutOutcome::Stored);
    assert_eq!(shard.put("k".to_string(), 99, b"old".to_vec()), PutOutcome::Stale);
    assert_eq!(shard.get("k"), Some(value(100, b"new")));
}

#[test]
fn equal_timestamp_lets_the_later_write_win() {
    let mut shard = Shard::new();
    assert_eq!(shard.put("k".to_string(), 5, b"first".to_vec()), PutOutcome::Stored);
    assert_eq!(shard.put("k".to_string(), 5, b"second".to_vec()), PutOutcome::Stored);
    assert_eq!(shard.get("k"), Some(value(5, b"second")));
}

#[test]
fn newer_write_replaces() {
    let mut shard = Shard::new();
    shard.put("k".to_string(), 1, b"a".to_vec());
    assert_eq!(shard.put("k".to_string(), u64::MAX, b"b".to_vec()), PutOutcome::Stored);
    assert_eq!(shard.get("k"), Some(value(u64::MAX, b"b")));
    assert_eq!(shard.put("k".to_string(), u64::MAX - 1, b"c".to_vec()), PutOutcome::Stale);
}

#[test]
fn keys_do_not_touch_each_other() {
    let mut shard = Shard::new();
    shard.put("a".to_string(), 10, b"1".to_vec());
    shard.put("b".to_string(), 1, b"2".to_vec());
    assert_eq!(shard.put("b".to_string(), 2, b"3".to_vec()), PutOutcome::Stored);
    assert_eq!(shard.get("a"), Some(value(10, b"1")));
    assert_eq!(shard.get("b"), Some(value(2, b"3")));
    assert_eq!(shard.get("c"), None);
}

#[test]
fn empty_payload_and_empty_key_are_values_like_any_other() {
    let mut shard = Shard::new();
    assert_eq!(shard.put(String::new(), 7, Vec::new()), PutOutcome::Stored);
    assert_eq!(shard.get(""), Some(value(7, b"")));
}

#[test]
fn highest_timestamp_wins_in_every_arrival_order() {
    let writes: [(u64, &[u8]); 4] = [(10, b"a"), (40, b"d"), (20, b"b"), (30, b"c")];
    let orders: [[usize; 4]; 6] =
        [[0, 1, 2, 3], [3, 2, 1, 0], [1, 0, 3, 2], [2, 3, 0, 1], [1, 2, 3, 0], [0, 2, 3, 1]];
    for order in orders {
        let mut shard = Shard::new();
        for i in order {
            shard.put("k".to_string(), writes[i].0, writes[i].1.to_vec());
        }
        assert_eq!(shard.get("k"), Some(value(40, b"d")));
    }
}

#[test]
fn get_returns_a_copy() {
    let mut shard = Shard::new();
    shard.put("k".to_string(), 1, b"abc".to_vec());
    let mut copy = shard.get("k").unwrap();
    copy.data.push(b'!');
    copy.ts = 9;
    assert_eq!(shard.get("k"), Some(value(1, b"abc")));
    assert_eq!(copy.clone(), value(9, b"abc!"));
}
