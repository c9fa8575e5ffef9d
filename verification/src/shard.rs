//! One partition of the key space: a map from key to value.

use vstd::prelude::*;
use vstd::hash_map::StringHashMap;
use crate::value::{PutOutcome, Stamped, Table, Value, lookup, put_outcome, put_table, value_view};

verus! {

/// A map from key to value that applies the last-write-wins rule.
pub struct Shard {
    map: StringHashMap<Value>,
}

impl View for Shard {
    type V = Table;

    closed spec fn view(&self) -> Table {
        self.map@.map_values(|v: Value| v@)
    }
}

impl Shard {
    /// An empty shard.
    pub fn new() -> (shard: Shard)
        ensures
            shard@ == Map::<Seq<char>, Stamped>::empty(),
    {
        let shard = Shard { map: StringHashMap::new() };
        assert(shard@ =~= Map::<Seq<char>, Stamped>::empty());
        shard
    }

    /// Writes `data` under `key` unless a value with a later timestamp is
    /// already stored. Equal timestamps let the incoming write win.
    pub fn put(&mut self, key: String, ts: u64, data: Vec<u8>) -> (outcome: PutOutcome)
        ensures
            outcome == put_outcome(old(self)@, key@, ts),
            final(self)@ == put_table(old(self)@, key@, ts, data@),
    {
        let stale = match self.map.get(key.as_str()) {
            Some(v) => ts < v.ts,
            None => false,
        };
        if stale {
            PutOutcome::Stale
        } else {
            let value = Value { ts, data };
            self.map.insert(key, value);
            assert(self@ =~= put_table(old(self)@, key@, ts, data@));
            PutOutcome::Stored
        }
    }

    /// A copy of the value stored under `key`, if there is one.
    pub fn get(&self, key: &str) -> (found: Option<Value>)
        ensures
            value_view(found) == lookup(self@, key@),
    {
        match self.map.get(key) {
            Some(v) => Some(v.clone()),
            None => None,
        }
    }
}

} // verus!
