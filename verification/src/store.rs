//! The sharded store: a fixed number of shards, each behind its own
//! reader/writer lock, and the routing of keys to shards.

use vstd::prelude::*;
use vstd::utf8::encode_utf8;
use vstd::arithmetic::power::pow;
use vstd::arithmetic::power2::{
    is_pow2, is_pow2_equiv, lemma2_to64_rest, lemma_pow2_pos, lemma_pow2_strictly_increases, pow2,
};
use vstd::bits::{lemma_u64_low_bits_mask_is_mod, low_bits_mask};
use std::sync::{RwLock, RwLockReadGuard, RwLockWriteGuard};
use crate::hash::{FastHasher, fast_hash};
use crate::shard::Shard;
use crate::value::{PutOutcome, Table, Value, lookup, put_outcome, put_table, value_view};

verus! {

/// `std::sync::RwLock`, opaque to the verifier: what it holds changes
/// under shared references, so nothing is stated of it.
#[verifier::external_type_specification]
#[verifier::external_body]
#[verifier::reject_recursive_types(T)]
pub struct ExRwLock<T: ?Sized>(RwLock<T>);

/// `std::sync::RwLockReadGuard`, opaque to the verifier.
#[verifier::external_type_specification]
#[verifier::external_body]
#[verifier::reject_recursive_types(T)]
pub struct ExRwLockReadGuard<'a, T: ?Sized>(RwLockReadGuard<'a, T>);

/// `std::sync::RwLockWriteGuard`, opaque to the verifier.
#[verifier::external_type_specification]
#[verifier::external_body]
#[verifier::reject_recursive_types(T)]
pub struct ExRwLockWriteGuard<'a, T: ?Sized + 'a>(RwLockWriteGuard<'a, T>);

/// `RwLock::new`: a lock around `shard`. Nothing is claimed of the result.
#[verifier::external_body]
fn lock_new(shard: Shard) -> RwLock<Shard> {
    RwLock::new(shard)
}

/// `RwLock::read`: waits for shared access to the shard. `None` stands for
/// the error that a poisoned lock returns. Which of the two comes back,
/// and what the shard then holds, depends on the other threads: nothing is
/// claimed of either.
#[verifier::external_body]
fn lock_read<'a>(lock: &'a RwLock<Shard>) -> Option<RwLockReadGuard<'a, Shard>> {
    lock.read().ok()
}

/// `RwLock::write`: waits for exclusive access to the shard. `None` stands
/// for the error that a poisoned lock returns. Which of the two comes back,
/// and what the shard then holds, depends on the other threads: nothing is
/// claimed of either.
#[verifier::external_body]
fn lock_write<'a>(lock: &'a RwLock<Shard>) -> Option<RwLockWriteGuard<'a, Shard>> {
    lock.write().ok()
}

/// `Deref::deref` of a read guard: the shard behind the lock. Nothing is
/// claimed of what it holds.
#[verifier::external_body]
fn guard_shard<'a, 'b>(guard: &'b RwLockReadGuard<'a, Shard>) -> &'b Shard {
    &**guard
}

/// `DerefMut::deref_mut` of a write guard: the shard behind the lock, for
/// writing. Nothing is claimed of what it holds.
#[verifier::external_body]
fn guard_shard_mut<'a, 'b>(guard: &'b mut RwLockWriteGuard<'a, Shard>) -> &'b mut Shard {
    &mut **guard
}

/// Why a store operation did not run.
#[derive(Clone, Copy, Debug, PartialEq, Eq, Structural)]
pub enum StoreError {
    /// A writer panicked while it held the shard's lock.
    Poisoned,
}

/// Carries a read out on what the shard's lock granted: a copy of the
/// value under `key` where the shard was granted, the store's error where
/// the lock is poisoned.
pub fn read_granted(granted: Option<&Shard>, key: &str) -> (r: Result<Option<Value>, StoreError>)
    ensures
        match granted {
            Some(shard) => r matches Ok(found) && value_view(found) == lookup(shard@, key@),
            None => r == Err::<Option<Value>, StoreError>(StoreError::Poisoned),
        },
{
    match granted {
        Some(shard) => Ok(shard.get(key)),
        None => Err(StoreError::Poisoned),
    }
}

/// Carries a write out on what the shard's lock granted: the write by the
/// last-write-wins rule where the shard was granted, the store's error,
/// with nothing written, where the lock is poisoned.
pub fn write_granted(granted: Option<&mut Shard>, key: String, ts: u64, data: Vec<u8>) -> (r:
    Result<PutOutcome, StoreError>)
    ensures
        match granted {
            Some(shard) => r == Ok::<PutOutcome, StoreError>(put_outcome((*shard)@, key@, ts))
                && (*final(shard))@ == put_table((*shard)@, key@, ts, data@),
            None => r == Err::<PutOutcome, StoreError>(StoreError::Poisoned),
        },
{
    match granted {
        Some(shard) => Ok(shard.put(key, ts, data)),
        None => Err(StoreError::Poisoned),
    }
}

/// The shard that a key with the given bytes belongs to among `count`
/// shards: its hash, as a machine word, modulo the count.
pub open spec fn shard_of(key: Seq<u8>, count: usize) -> int {
    (fast_hash(key) as usize) as int % (count as int)
}

/// With a power-of-two count, masking a word with `count - 1` selects the
/// same shard as the remainder does.
pub proof fn lemma_mask_is_remainder(word: usize, count: usize)
    requires
        is_pow2(count as int),
    ensures
        word & ((count - 1) as usize) == word % count,
{
    is_pow2_equiv(count as int);
    let k = choose|k: nat| pow(2, k) == count as int;
    assert(pow2(k) == count);
    lemma_pow2_pos(k);
    lemma2_to64_rest();
    if k > 64 {
        lemma_pow2_strictly_increases(64, k);
    }
    assert(k < 64);
    let w = word as u64;
    let m = (count - 1) as u64;
    lemma_u64_low_bits_mask_is_mod(w, k);
    assert(low_bits_mask(k) as u64 == m);
    assert(w & m == w % (count as u64));
    let masked = word & ((count - 1) as usize);
    let narrow = (count - 1) as usize;
    assert(masked as u64 == w & m) by (bit_vector)
        requires
            masked == word & narrow,
            w == word as u64,
            m == narrow as u64,
    ;
}

/// The shard that `key` belongs to among `count` shards.
pub open spec fn key_shard(key: Seq<char>, count: usize) -> int {
    shard_of(encode_utf8(key), count)
}

/// The part of `table` that the shard at `index` holds: the entries of the
/// keys that belong to it.
pub open spec fn shard_part(table: Table, index: int, count: usize) -> Table {
    table.restrict(Set::new(|key: Seq<char>| key_shard(key, count) == index))
}

/// Every key belongs to exactly one of the shards.
pub proof fn lemma_key_has_a_shard(key: Seq<char>, count: usize)
    requires
        count >= 1,
    ensures
        0 <= key_shard(key, count) < count,
{
}

/// A read needs no shard but the key's own.
pub proof fn lemma_read_from_own_shard(table: Table, key: Seq<char>, count: usize)
    ensures
        lookup(shard_part(table, key_shard(key, count), count), key) == lookup(table, key),
{
}

/// A write needs no shard but the key's own: it ends there as it would on
/// the whole table, and leaves that shard holding its part of the table
/// written to.
pub proof fn lemma_write_to_own_shard(
    table: Table,
    key: Seq<char>,
    ts: u64,
    data: Seq<u8>,
    count: usize,
)
    ensures
        put_outcome(shard_part(table, key_shard(key, count), count), key, ts) == put_outcome(
            table,
            key,
            ts,
        ),
        put_table(shard_part(table, key_shard(key, count), count), key, ts, data) == shard_part(
            put_table(table, key, ts, data),
            key_shard(key, count),
            count,
        ),
{
    let own = key_shard(key, count);
    assert(put_table(shard_part(table, own, count), key, ts, data) =~= shard_part(
        put_table(table, key, ts, data),
        own,
        count,
    ));
}

/// A write changes nothing in any shard but the key's own.
pub proof fn lemma_write_leaves_other_shards(
    table: Table,
    key: Seq<char>,
    ts: u64,
    data: Seq<u8>,
    count: usize,
    other: int,
)
    requires
        other != key_shard(key, count),
    ensures
        shard_part(put_table(table, key, ts, data), other, count) == shard_part(
            table,
            other,
            count,
        ),
{
    assert(shard_part(put_table(table, key, ts, data), other, count) =~= shard_part(
        table,
        other,
        count,
    ));
}

/// Whether `n` is a power of two.
fn power_of_two(n: usize) -> (yes: bool)
    ensures
        yes == is_pow2(n as int),
{
    if n == 0 {
        proof {
            reveal(is_pow2);
        }
        return false;
    }
    let mut m: usize = n;
    while m % 2 == 0
        invariant
            m >= 1,
            is_pow2(m as int) == is_pow2(n as int),
        decreases m,
    {
        proof {
            reveal(is_pow2);
        }
        m = m / 2;
    }
    proof {
        reveal(is_pow2);
    }
    m == 1
}

/// A fixed number of shards, each behind its own lock.
pub struct ShardedStore {
    shards: Vec<RwLock<Shard>>,
    mask: usize,
    pow2: bool,
}

impl ShardedStore {
    #[verifier::type_invariant]
    spec fn well_formed(&self) -> bool {
        &&& self.shards.len() >= 1
        &&& self.pow2 ==> is_pow2(self.shards.len() as int) && self.mask == self.shards.len() - 1
    }

    /// The number of shards, fixed when the store was made.
    pub closed spec fn shard_count(&self) -> usize {
        self.shards.len()
    }

    /// A store of `n` empty shards.
    pub fn new(n: usize) -> (store: ShardedStore)
        requires
            n >= 1,
        ensures
            store.shard_count() == n,
    {
        let pow2 = power_of_two(n);
        let mask: usize = if pow2 { n - 1 } else { 0 };
        let mut shards: Vec<RwLock<Shard>> = Vec::with_capacity(n);
        let mut i: usize = 0;
        while i < n
            invariant
                i <= n,
                shards.len() == i,
            decreases n - i,
        {
            shards.push(lock_new(Shard::new()));
            i = i + 1;
        }
        ShardedStore { shards, mask, pow2 }
    }

    /// The index of the shard that holds `key`.
    pub fn shard_index(&self, key: &str) -> (idx: usize)
        ensures
            idx == key_shard(key@, self.shard_count()),
            idx < self.shard_count(),
    {
        proof {
            use_type_invariant(self);
        }
        let mut h = FastHasher::new();
        h.write(key.as_bytes());
        let v: usize = #[verifier::truncate] (h.finish() as usize);
        if self.pow2 {
            proof {
                lemma_mask_is_remainder(v, self.shards.len());
            }
            v & self.mask
        } else {
            v % self.shards.len()
        }
    }

    /// Writes `data` under `key` by the last-write-wins rule, holding the
    /// exclusive lock of the key's shard and no other. Whether the lock is
    /// granted, and what the shard holds when it is, is for the other
    /// threads to decide, so the outcome is the rule's outcome on a table
    /// that this contract cannot name; `write_granted` states the result,
    /// and what is written, for each thing that the lock can grant.
    pub fn put(&self, key: String, ts: u64, data: Vec<u8>) -> (r: Result<PutOutcome, StoreError>)
        ensures
            r matches Ok(outcome) ==> exists|seen: Table| outcome == put_outcome(seen, key@, ts),
    {
        let idx: usize = self.shard_index(key.as_str());
        match lock_write(&self.shards[idx]) {
            None => write_granted(None, key, ts, data),
            Some(mut guard) => write_granted(Some(guard_shard_mut(&mut guard)), key, ts, data),
        }
    }

    /// A copy of the value stored under `key`, read while holding the
    /// shared lock of the key's shard and no other. Whether the lock is
    /// granted, and what the shard holds when it is, is for the other
    /// threads to decide, and every result is the result on some shard, so
    /// there is nothing for this contract to state; `read_granted` states
    /// the result for each thing that the lock can grant.
    pub fn get(&self, key: &str) -> (r: Result<Option<Value>, StoreError>)
    {
        let idx: usize = self.shard_index(key);
        match lock_read(&self.shards[idx]) {
            None => read_granted(None, key),
            Some(guard) => read_granted(Some(guard_shard(&guard)), key),
        }
    }
}

} // verus!
