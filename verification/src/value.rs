//! Stored values and the last-write-wins rule, as a mathematical model.

use vstd::prelude::*;

verus! {

/// What a stored value is to the specification: a caller-chosen timestamp
/// and a byte payload.
pub struct Stamped {
    pub ts: u64,
    pub data: Seq<u8>,
}

/// The contents of a store: each key that was ever written, with the value
/// it currently holds.
pub type Table = Map<Seq<char>, Stamped>;

/// A stored value: the timestamp the writer supplied and the payload.
#[derive(Debug, PartialEq, Eq)]
pub struct Value {
    pub ts: u64,
    pub data: Vec<u8>,
}

impl View for Value {
    type V = Stamped;

    open spec fn view(&self) -> Stamped {
        Stamped { ts: self.ts, data: self.data@ }
    }
}

impl Clone for Value {
    fn clone(&self) -> (copy: Value)
        ensures
            copy@ == self@,
    {
        Value { ts: self.ts, data: self.data.clone() }
    }
}

/// How a write ended.
#[derive(Clone, Copy, Debug, PartialEq, Eq, Structural)]
pub enum PutOutcome {
    /// The value was inserted or replaced the one before.
    Stored,
    /// A value with a later timestamp was already there; nothing changed.
    Stale,
}

/// Whether a write with timestamp `ts` to `key` is accepted by `table`: the
/// key is new, or the timestamp is not older than the stored one.
pub open spec fn accepts(table: Table, key: Seq<char>, ts: u64) -> bool {
    table.contains_key(key) ==> ts >= table[key].ts
}

/// The outcome of writing to `table`.
pub open spec fn put_outcome(table: Table, key: Seq<char>, ts: u64) -> PutOutcome {
    if accepts(table, key, ts) {
        PutOutcome::Stored
    } else {
        PutOutcome::Stale
    }
}

/// The table after a write: an accepted write replaces the entry, a stale
/// one leaves the table as it was.
pub open spec fn put_table(table: Table, key: Seq<char>, ts: u64, data: Seq<u8>) -> Table {
    if accepts(table, key, ts) {
        table.insert(key, Stamped { ts, data })
    } else {
        table
    }
}

/// What a read of `key` finds.
pub open spec fn lookup(table: Table, key: Seq<char>) -> Option<Stamped> {
    if table.contains_key(key) {
        Some(table[key])
    } else {
        None
    }
}

/// The view of an optional value.
pub open spec fn value_view(v: Option<Value>) -> Option<Stamped> {
    match v {
        Some(v) => Some(v@),
        None => None,
    }
}

} // verus!
