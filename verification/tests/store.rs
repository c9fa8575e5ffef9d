use kvz::shard::Shard;
use kvz::store::{read_granted, write_granted, ShardedStore, StoreError};
use kvz::value::{PutOutcome, Value};

fn value(ts: u64, data: &[u8]) -> Value {
    Value { ts, data: data.to_vec() }
}

#[test]
fn shard_index_is_hash_modulo_count() {
    let seven = ShardedStore::new(7);
    assert_eq!(seven.shard_index("a"), (0x60a38877caf7a4e0u64 as usize) % 7);
    assert_eq!(seven.shard_index("foo"), (0x40451f1bf6ca1458u64 as usize) % 7);
    assert_eq!(seven.shard_index("bar"), (0xa3bbd7a77c934e61u64 as usize) % 7);
    assert_eq!(seven.shard_index(""), 0);
    let three = ShardedStore::new(3);
    assert_eq!(three.shard_index("hello world"), (0xedbcb2b2ac5a1184u64 as usize) % 3);
}

#[test]
fn shard_index_with_power_of_two_count_is_the_same_remainder() {
    let eight = ShardedStore::new(8);
    assert_eq!(eight.shard_index("bar"), (0xa3bbd7a77c934e61u64 as usize) % 8);
    assert_eq!(eight.shard_index("key-0"), (0x3bb587e928943cf2u64 as usize) % 8);
    assert_eq!(eight.shard_index("hello world"), (0xedbcb2b2ac5a1184u64 as usize) % 8);
    let sixty_four = ShardedStore::new(64);
    assert_eq!(sixty_four.shard_index("a"), 32);
    assert_eq!(sixty_four.shard_index("foo"), 24);
    assert_eq!(sixty_four.shard_index("bar"), 33);
    assert_eq!(sixty_four.shard_index("key-0"), 50);
}

#[test]
fn on_64_bit_machines_known_indices() {
    if usize::BITS == 64 {
        let seven = ShardedStore::new(7);
        assert_eq!(seven.shard_index("a"), 1);
        assert_eq!(seven.shard_index("foo"), 4);
        assert_eq!(seven.shard_index("bar"), 6);
        assert_eq!(seven.shard_index("key-0"), 1);
        assert_eq!(seven.shard_index("hello world"), 5);
    }
}

#[test]
fn one_shard_takes_every_key() {
    let store = ShardedStore::new(1);
    for key in ["", "a", "foo", "bar", "key-0", "hello world"] {
        assert_eq!(store.shard_index(key), 0);
    }
}

#[test]
fn shard_index_stays_below_the_count() {
    for count in 1..40usize {
        let store = ShardedStore::new(count);
        for i in 0..200u32 {
            let key = format!("key-{}", i);
            assert!(store.shard_index(&key) < count);
        }
    }
}

#[test]
fn same_key_same_shard() {
    let first = ShardedStore::new(12);
    let second = ShardedStore::new(12);
    for i in 0..100u32 {
        let key = format!("k{}", i);
        let idx = first.shard_index(&key);
        assert_eq!(first.shard_index(&key), idx);
        assert_eq!(second.shard_index(&key), idx);
    }
}

#[test]
fn put_then_get_returns_the_value() {
    let store = ShardedStore::new(8);
    assert_eq!(store.put("foo".to_string(), 100, b"abc".to_vec()), Ok(PutOutcome::Stored));
    assert_eq!(store.get("foo"), Ok(Some(value(100, b"abc"))));
}

#[test]
fn get_of_a_key_never_written_is_a_miss() {
    let store = ShardedStore::new(8);
    assert_eq!(store.get("foo"), Ok(None));
    store.put("foo".to_string(), 1, b"x".to_vec()).unwrap();
    assert_eq!(store.get("bar"), Ok(None));
    assert_eq!(store.get(""), Ok(None));
}

#[test]
fn stale_write_is_rejected_by_the_store() {
    let store = ShardedStore::new(5);
    assert_eq!(store.put("k".to_string(), 100, b"d1".to_vec()), Ok(PutOutcome::Stored));
    assert_eq!(store.put("k".to_string(), 50, b"d2".to_vec()), Ok(PutOutcome::Stale));
    assert_eq!(store.get("k"), Ok(Some(value(100, b"d1"))));
}

#[test]
fn tie_is_stored_by_the_store() {
    let store = ShardedStore::new(5);
    assert_eq!(store.put("k".to_string(), 7, b"d1".to_vec()), Ok(PutOutcome::Stored));
    assert_eq!(store.put("k".to_string(), 7, b"d2".to_vec()), Ok(PutOutcome::Stored));
    assert_eq!(store.get("k"), Ok(Some(value(7, b"d2"))));
}

#[test]
fn many_keys_over_many_shards() {
    for count in [1usize, 2, 3, 8, 10, 64] {
        let store = ShardedStore::new(count);
        for i in 0..500u64 {
            let key = format!("key-{}", i);
            assert_eq!(store.put(key, i, i.to_be_bytes().to_vec()), Ok(PutOutcome::Stored));
        }
        for i in 0..500u64 {
            let key = format!("key-{}", i);
            assert_eq!(store.get(&key), Ok(Some(value(i, &i.to_be_bytes()))));
        }
        assert_eq!(store.get("key-500"), Ok(None));
    }
}

#[test]
fn increasing_timestamps_in_any_order_leave_the_largest() {
    let orders: [[u64; 5]; 4] =
        [[1, 2, 3, 4, 5], [5, 4, 3, 2, 1], [3, 5, 1, 4, 2], [2, 1, 5, 3, 4]];
    for order in orders {
        let store = ShardedStore::new(4);
        for ts in order {
            store.put("k".to_string(), ts, vec![ts as u8]).unwrap();
        }
        assert_eq!(store.get("k"), Ok(Some(value(5, &[5]))));
    }
}

#[test]
fn a_shared_reference_serves_writers_and_readers() {
    let store = ShardedStore::new(2);
    let a = &store;
    let b = &store;
    assert_eq!(a.put("x".to_string(), 1, b"1".to_vec()), Ok(PutOutcome::Stored));
    assert_eq!(b.put("y".to_string(), 1, b"2".to_vec()), Ok(PutOutcome::Stored));
    assert_eq!(b.get("x"), Ok(Some(value(1, b"1"))));
    assert_eq!(a.get("y"), Ok(Some(value(1, b"2"))));
}

#[test]
fn store_error_is_distinguishable() {
    let failed: Result<PutOutcome, StoreError> = Err(StoreError::Poisoned);
    assert_ne!(failed, Ok(PutOutcome::Stale));
    assert_ne!(failed, Ok(PutOutcome::Stored));
    let read: Result<Option<Value>, StoreError> = Err(StoreError::Poisoned);
    assert_ne!(read, Ok(None));
}

#[test]
fn a_write_changes_nothing_in_other_shards() {
    let store = ShardedStore::new(8);
    let keys: Vec<String> = (0..64u32).map(|i| format!("key-{}", i)).collect();
    for key in &keys {
        store.put(key.clone(), 1, key.as_bytes().to_vec()).unwrap();
    }
    let written = &keys[0];
    let home = store.shard_index(written);
    assert_eq!(store.put(written.clone(), 2, b"new".to_vec()), Ok(PutOutcome::Stored));
    let mut elsewhere = 0;
    for key in &keys[1..] {
        if store.shard_index(key) != home {
            elsewhere += 1;
        }
        assert_eq!(store.get(key), Ok(Some(value(1, key.as_bytes()))));
    }
    assert!(elsewhere > 0);
    assert_eq!(store.get(written), Ok(Some(value(2, b"new"))));
}

#[test]
fn keys_spread_over_the_shards() {
    let store = ShardedStore::new(8);
    let mut used = [false; 8];
    for i in 0..256u32 {
        used[store.shard_index(&format!("key-{}", i))] = true;
    }
    assert!(used.iter().filter(|u| **u).count() >= 4);
}

#[test]
fn poisoned_lock_fails_a_write_and_writes_nothing() {
    assert_eq!(
        write_granted(None, "k".to_string(), 1, b"v".to_vec()),
        Err(StoreError::Poisoned)
    );
    let mut shard = Shard::new();
    shard.put("k".to_string(), 3, b"kept".to_vec());
    assert_eq!(write_granted(None, "k".to_string(), 9, b"lost".to_vec()), Err(StoreError::Poisoned));
    assert_eq!(shard.get("k"), Some(value(3, b"kept")));
}

#[test]
fn poisoned_lock_fails_a_read() {
    assert_eq!(read_granted(None, "k"), Err(StoreError::Poisoned));
    assert_eq!(read_granted(None, ""), Err(StoreError::Poisoned));
}

#[test]
fn granted_shard_is_written_by_the_rule() {
    let mut shard = Shard::new();
    assert_eq!(
        write_granted(Some(&mut shard), "k".to_string(), 10, b"a".to_vec()),
        Ok(PutOutcome::Stored)
    );
    assert_eq!(
        write_granted(Some(&mut shard), "k".to_string(), 9, b"b".to_vec()),
        Ok(PutOutcome::Stale)
    );
    assert_eq!(shard.get("k"), Some(value(10, b"a")));
    assert_eq!(
        write_granted(Some(&mut shard), "k".to_string(), 10, b"c".to_vec()),
        Ok(PutOutcome::Stored)
    );
    assert_eq!(shard.get("k"), Some(value(10, b"c")));
}

#[test]
fn granted_shard_is_read() {
    let mut shard = Shard::new();
    assert_eq!(read_granted(Some(&shard), "k"), Ok(None));
    shard.put("k".to_string(), 4, b"v".to_vec());
    assert_eq!(read_granted(Some(&shard), "k"), Ok(Some(value(4, b"v"))));
    assert_eq!(read_granted(Some(&shard), "other"), Ok(None));
}
