//! What the last-write-wins rule guarantees over whole histories of writes.

use vstd::prelude::*;
use vstd::seq_lib::seq_to_set_is_finite;
use vstd::set_lib::{lemma_int_range, lemma_subset_equality, set_int_range};
use crate::value::{Stamped, Table, PutOutcome, accepts, put_outcome, put_table, lookup};

verus! {

/// One write as it reaches the store.
pub struct Write {
    pub key: Seq<char>,
    pub ts: u64,
    pub data: Seq<u8>,
}

/// The table after the writes of `history` have been applied to `table`,
/// first to last.
pub open spec fn replay(table: Table, history: Seq<Write>) -> Table
    decreases history.len(),
{
    if history.len() == 0 {
        table
    } else {
        let w = history.last();
        put_table(replay(table, history.drop_last()), w.key, w.ts, w.data)
    }
}

/// No write raises a key's timestamp above the highest timestamp written
/// to it: if the stored timestamp and every write to `key` stay within
/// `bound`, so does the timestamp stored afterwards.
pub proof fn lemma_timestamps_bounded(table: Table, history: Seq<Write>, key: Seq<char>, bound: u64)
    requires
        table.contains_key(key) ==> table[key].ts <= bound,
        forall|i: int| 0 <= i < history.len() && history[i].key == key ==> history[i].ts <= bound,
    ensures
        replay(table, history).contains_key(key) ==> replay(table, history)[key].ts <= bound,
    decreases history.len(),
{
    if history.len() > 0 {
        let earlier = history.drop_last();
        assert forall|i: int| 0 <= i < earlier.len() && earlier[i].key == key implies earlier[i].ts
            <= bound by {
            assert(earlier[i] == history[i]);
        }
        lemma_timestamps_bounded(table, earlier, key, bound);
    }
}

/// The stored timestamp of a key never decreases, and a key once present
/// stays present.
pub proof fn lemma_timestamps_never_decrease(table: Table, history: Seq<Write>, key: Seq<char>)
    requires
        table.contains_key(key),
    ensures
        replay(table, history).contains_key(key),
        replay(table, history)[key].ts >= table[key].ts,
    decreases history.len(),
{
    if history.len() > 0 {
        lemma_timestamps_never_decrease(table, history.drop_last(), key);
    }
}

/// Last write wins, whatever the order of arrival. Let `history` be any
/// sequence of writes, in the order in which they reached the store, and
/// let the write at `winner` carry a timestamp above that of every other
/// write to its key and not below the one stored before. Then a read of
/// that key after the history finds the winner's timestamp and data.
pub proof fn lemma_highest_timestamp_wins(table: Table, history: Seq<Write>, winner: int)
    requires
        0 <= winner < history.len(),
        forall|i: int|
            0 <= i < history.len() && i != winner && history[i].key == history[winner].key
                ==> history[i].ts < history[winner].ts,
        table.contains_key(history[winner].key) ==> table[history[winner].key].ts
            <= history[winner].ts,
    ensures
        lookup(replay(table, history), history[winner].key) == Some(
            Stamped { ts: history[winner].ts, data: history[winner].data },
        ),
    decreases history.len(),
{
    let key = history[winner].key;
    let earlier = history.drop_last();
    let last = history.last();
    if winner == history.len() - 1 {
        assert forall|i: int| 0 <= i < earlier.len() && earlier[i].key == key implies earlier[i].ts
            <= last.ts by {
            assert(earlier[i] == history[i]);
        }
        lemma_timestamps_bounded(table, earlier, key, last.ts);
    } else {
        assert(earlier[winner] == history[winner]);
        assert forall|i: int|
            0 <= i < earlier.len() && i != winner && earlier[i].key == earlier[winner].key
                implies earlier[i].ts < earlier[winner].ts by {
            assert(earlier[i] == history[i]);
        }
        lemma_highest_timestamp_wins(table, earlier, winner);
    }
}

/// The writes of `puts` to `key`, as they arrive when the write at position
/// `order[i]` is the `i`-th to reach the store.
pub open spec fn arrivals(key: Seq<char>, puts: Seq<Stamped>, order: Seq<int>) -> Seq<Write> {
    Seq::new(
        order.len(),
        |i: int| Write { key, ts: puts[order[i]].ts, data: puts[order[i]].data },
    )
}

/// Whether `order` names each position below `n` exactly once.
pub open spec fn is_arrival_order(order: Seq<int>, n: nat) -> bool {
    &&& order.len() == n
    &&& forall|i: int| 0 <= i < order.len() ==> 0 <= #[trigger] order[i] < n
    &&& order.no_duplicates()
}

/// An arrival order names every position.
proof fn lemma_order_reaches(order: Seq<int>, n: nat, target: int)
    requires
        is_arrival_order(order, n),
        0 <= target < n,
    ensures
        exists|i: int| 0 <= i < order.len() && order[i] == target,
{
    let named = order.to_set();
    let all = set_int_range(0, n as int);
    order.unique_seq_to_set();
    seq_to_set_is_finite(order);
    lemma_int_range(0, n as int);
    assert(named.subset_of(all)) by {
        assert forall|x: int| named.contains(x) implies all.contains(x) by {
            let i = choose|i: int| 0 <= i < order.len() && order[i] == x;
            assert(0 <= order[i] < n);
        }
    }
    lemma_subset_equality(named, all);
    assert(all.contains(target));
    assert(order.contains(target));
}

/// Writes to one key with strictly increasing timestamps leave the data of
/// the last of them, in whatever order they reach the store: for `puts`
/// ascending in timestamp, any arrival order of them, and a table that
/// holds nothing later under `key`, a read after all of them finds the
/// write with the largest timestamp.
pub proof fn lemma_increasing_timestamps_any_order(
    table: Table,
    key: Seq<char>,
    puts: Seq<Stamped>,
    order: Seq<int>,
)
    requires
        puts.len() > 0,
        forall|a: int, b: int| 0 <= a < b < puts.len() ==> puts[a].ts < puts[b].ts,
        is_arrival_order(order, puts.len()),
        table.contains_key(key) ==> table[key].ts <= puts.last().ts,
    ensures
        lookup(replay(table, arrivals(key, puts, order)), key) == Some(puts.last()),
{
    let top = puts.len() - 1;
    lemma_order_reaches(order, puts.len(), top);
    let winner = choose|i: int| 0 <= i < order.len() && order[i] == top;
    let history = arrivals(key, puts, order);
    assert forall|i: int|
        0 <= i < history.len() && i != winner && history[i].key == history[winner].key
            implies history[i].ts < history[winner].ts by {
        assert(order[i] != order[winner]);
        assert(0 <= order[i] < puts.len());
    }
    lemma_highest_timestamp_wins(table, history, winner);
}

/// A write with an older timestamp is rejected and changes nothing: after
/// a write `(t1, d1)` to `key`, a write with `t2 < t1` is stale and leaves
/// the table as it was; where `(t1, d1)` was stored, a read still finds it.
pub proof fn lemma_older_write_is_stale(
    table: Table,
    key: Seq<char>,
    t1: u64,
    d1: Seq<u8>,
    t2: u64,
    d2: Seq<u8>,
)
    requires
        t2 < t1,
    ensures
        put_outcome(put_table(table, key, t1, d1), key, t2) == PutOutcome::Stale,
        put_table(put_table(table, key, t1, d1), key, t2, d2) == put_table(table, key, t1, d1),
        accepts(table, key, t1) ==> lookup(
            put_table(put_table(table, key, t1, d1), key, t2, d2),
            key,
        ) == Some(Stamped { ts: t1, data: d1 }),
{
}

/// Equal timestamps let the later write win: after `(t, d1)` was stored
/// under `key`, a write `(t, d2)` is stored too and a read finds `(t, d2)`.
pub proof fn lemma_tie_goes_to_later_write(
    table: Table,
    key: Seq<char>,
    t: u64,
    d1: Seq<u8>,
    d2: Seq<u8>,
)
    requires
        accepts(table, key, t),
    ensures
        put_outcome(put_table(table, key, t, d1), key, t) == PutOutcome::Stored,
        lookup(put_table(put_table(table, key, t, d1), key, t, d2), key) == Some(
            Stamped { ts: t, data: d2 },
        ),
{
}

/// A key that no write names is as it was: in particular a key that was
/// never written is absent, whatever was written to other keys.
pub proof fn lemma_unwritten_key_untouched(table: Table, history: Seq<Write>, key: Seq<char>)
    requires
        forall|i: int| 0 <= i < history.len() ==> history[i].key != key,
    ensures
        lookup(replay(table, history), key) == lookup(table, key),
        !table.contains_key(key) ==> lookup(replay(table, history), key) is None,
    decreases history.len(),
{
    if history.len() > 0 {
        let earlier = history.drop_last();
        assert forall|i: int| 0 <= i < earlier.len() implies earlier[i].key != key by {
            assert(earlier[i] == history[i]);
        }
        lemma_unwritten_key_untouched(table, earlier, key);
    }
}

/// A write touches no key but its own.
pub proof fn lemma_put_leaves_other_keys(
    table: Table,
    key: Seq<char>,
    ts: u64,
    data: Seq<u8>,
    other: Seq<char>,
)
    requires
        other != key,
    ensures
        lookup(put_table(table, key, ts, data), other) == lookup(table, other),
{
}

/// Writing the same write twice is writing it once.
pub proof fn lemma_put_is_idempotent(table: Table, key: Seq<char>, ts: u64, data: Seq<u8>)
    ensures
        put_table(put_table(table, key, ts, data), key, ts, data) == put_table(
            table,
            key,
            ts,
            data,
        ),
{
    let once = put_table(table, key, ts, data);
    assert(put_table(once, key, ts, data) =~= once);
}

/// Two writes to one key with different timestamps commute.
pub proof fn lemma_puts_commute(
    table: Table,
    key: Seq<char>,
    t1: u64,
    d1: Seq<u8>,
    t2: u64,
    d2: Seq<u8>,
)
    requires
        t1 != t2,
    ensures
        put_table(put_table(table, key, t1, d1), key, t2, d2) == put_table(
            put_table(table, key, t2, d2),
            key,
            t1,
            d1,
        ),
{
    let a = put_table(put_table(table, key, t1, d1), key, t2, d2);
    let b = put_table(put_table(table, key, t2, d2), key, t1, d1);
    assert(a =~= b);
}

} // verus!
