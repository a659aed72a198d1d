use vstd::prelude::*;
use crate::kline::Kline;

verus! {

/// Some row of `rows` already has open time `t`.
pub open spec fn has_time(rows: Seq<Kline>, t: u64) -> bool {
    exists|i: int| 0 <= i < rows.len() && rows[i].time_open == t
}

/// One idempotent row insert: a candle whose open time is already present
/// is dropped, anything else is appended.
pub open spec fn insert_kline_row(rows: Seq<Kline>, k: Kline) -> Seq<Kline> {
    if has_time(rows, k.time_open) {
        rows
    } else {
        rows.push(k)
    }
}

/// Idempotent batch insert, row by row in batch order.
pub open spec fn insert_kline_batch(rows: Seq<Kline>, batch: Seq<Kline>) -> Seq<Kline>
    decreases batch.len(),
{
    if batch.len() == 0 {
        rows
    } else {
        insert_kline_row(insert_kline_batch(rows, batch.drop_last()), batch.last())
    }
}

/// After a batch insert exactly the old open times and the batch's open
/// times are present.
pub proof fn lemma_insert_kline_batch_times(rows: Seq<Kline>, batch: Seq<Kline>)
    ensures
        forall|t: u64| #[trigger]
            has_time(insert_kline_batch(rows, batch), t) == (has_time(rows, t) || has_time(
                batch,
                t,
            )),
    decreases batch.len(),
{
    if batch.len() > 0 {
        lemma_insert_kline_batch_times(rows, batch.drop_last());
        let prev = insert_kline_batch(rows, batch.drop_last());
        let k = batch.last();
        assert forall|t: u64| #[trigger]
            has_time(insert_kline_batch(rows, batch), t) == (has_time(rows, t) || has_time(
                batch,
                t,
            )) by {
            lemma_has_time_push(prev, k, t);
            lemma_has_time_drop_last(batch, t);
        }
    } else {
        assert(forall|t: u64| !has_time(batch, t));
    }
}

/// Membership of open times over a push.
proof fn lemma_has_time_push(rows: Seq<Kline>, k: Kline, t: u64)
    ensures
        has_time(rows.push(k), t) == (has_time(rows, t) || k.time_open == t),
{
    if has_time(rows, t) {
        let i = choose|i: int| 0 <= i < rows.len() && rows[i].time_open == t;
        assert(rows.push(k)[i].time_open == t);
    }
    if k.time_open == t {
        assert(rows.push(k)[rows.len() as int].time_open == t);
    }
    if has_time(rows.push(k), t) {
        let i = choose|i: int| 0 <= i < rows.push(k).len() && rows.push(k)[i].time_open == t;
        if i < rows.len() {
            assert(rows[i].time_open == t);
        }
    }
}

/// Membership of open times over dropping the last row.
proof fn lemma_has_time_drop_last(rows: Seq<Kline>, t: u64)
    requires
        rows.len() > 0,
    ensures
        has_time(rows, t) == (has_time(rows.drop_last(), t) || rows.last().time_open == t),
{
    if has_time(rows, t) {
        let i = choose|i: int| 0 <= i < rows.len() && rows[i].time_open == t;
        if i < rows.len() - 1 {
            assert(rows.drop_last()[i].time_open == t);
        }
    }
    if has_time(rows.drop_last(), t) {
        let i = choose|i: int|
            0 <= i < rows.drop_last().len() && rows.drop_last()[i].time_open == t;
        assert(rows[i].time_open == t);
    }
}

/// A batch whose open times are all present already changes nothing.
proof fn lemma_insert_kline_batch_absorbed(rows: Seq<Kline>, batch: Seq<Kline>)
    requires
        forall|i: int| 0 <= i < batch.len() ==> has_time(rows, #[trigger] batch[i].time_open),
    ensures
        insert_kline_batch(rows, batch) == rows,
    decreases batch.len(),
{
    if batch.len() > 0 {
        assert forall|i: int| 0 <= i < batch.drop_last().len() implies has_time(
            rows,
            #[trigger] batch.drop_last()[i].time_open,
        ) by {
            assert(batch.drop_last()[i] == batch[i]);
        }
        lemma_insert_kline_batch_absorbed(rows, batch.drop_last());
        assert(batch.last() == batch[batch.len() - 1]);
    }
}

/// Inserting the same candle batch twice leaves the table exactly as one
/// insert leaves it: the repeated rows are dropped as already present.
pub proof fn lemma_insert_kline_batch_idempotent(rows: Seq<Kline>, batch: Seq<Kline>)
    ensures
        insert_kline_batch(insert_kline_batch(rows, batch), batch) == insert_kline_batch(
            rows,
            batch,
        ),
{
    let once = insert_kline_batch(rows, batch);
    lemma_insert_kline_batch_times(rows, batch);
    assert forall|i: int| 0 <= i < batch.len() implies has_time(
        once,
        #[trigger] batch[i].time_open,
    ) by {
        assert(has_time(batch, batch[i].time_open));
    }
    lemma_insert_kline_batch_absorbed(once, batch);
}

/// The in-memory model of one symbol's candle table: rows keyed uniquely
/// by open time, exactly the invariant the storage schema enforces with
/// its primary key.
pub struct CandleTable {
    rows: Vec<Kline>,
}

impl View for CandleTable {
    type V = Seq<Kline>;

    closed spec fn view(&self) -> Seq<Kline> {
        self.rows@
    }
}

impl CandleTable {
    /// Uniqueness invariant: at most one row per open time.
    pub open spec fn wf(&self) -> bool {
        forall|i: int, j: int|
            0 <= i < j < self@.len() ==> #[trigger] self@[i].time_open != #[trigger] self@[j].time_open
    }

    pub fn new() -> (r: Self)
        ensures
            r@ == Seq::<Kline>::empty(),
            r.wf(),
    {
        CandleTable { rows: Vec::new() }
    }

    pub fn len(&self) -> (r: usize)
        ensures
            r == self@.len(),
    {
        self.rows.len()
    }

    pub fn row(&self, i: usize) -> (r: &Kline)
        requires
            i < self@.len(),
        ensures
            *r == self@[i as int],
    {
        &self.rows[i]
    }

    /// Whether a row with open time `t` is present.
    pub fn contains_time(&self, t: u64) -> (r: bool)
        ensures
            r == has_time(self@, t),
    {
        let mut i: usize = 0;
        while i < self.rows.len()
            invariant
                i <= self.rows@.len(),
                self@ == self.rows@,
                forall|j: int| 0 <= j < i ==> self.rows@[j].time_open != t,
            decreases self.rows@.len() - i,
        {
            if self.rows[i].time_open == t {
                return true;
            }
            i = i + 1;
        }
        false
    }
}

/// The storage layer's write operations, modeled over the in-memory
/// tables; the SQL bindings mirror these contracts statement for
/// statement.
pub struct PostgresExecutor {}

impl PostgresExecutor {
    /// Idempotent batch insert of candles: each row goes in only if its
    /// open time is absent, so repeated backfills of overlapping ranges
    /// are safe no-ops for already-present rows.
    pub fn insert_klines(table: &mut CandleTable, klines: &Vec<Kline>)
        requires
            old(table).wf(),
        ensures
            final(table)@ == insert_kline_batch(old(table)@, klines@),
            final(table).wf(),
    {
        let ghost rows0 = table@;
        let mut i: usize = 0;
        while i < klines.len()
            invariant
                i <= klines@.len(),
                table@ == insert_kline_batch(rows0, klines@.take(i as int)),
                table.wf(),
            decreases klines@.len() - i,
        {
            let k = &klines[i];
            let ghost before = table@;
            if !table.contains_time(k.time_open) {
                table.push_row(k.clone());
            }
            proof {
                assert(klines@.take(i + 1 as int).drop_last() =~= klines@.take(i as int));
                assert(klines@.take(i + 1 as int).last() == klines@[i as int]);
                assert(table@ == insert_kline_row(before, klines@[i as int]));
            }
            i = i + 1;
        }
        proof {
            assert(klines@.take(klines@.len() as int) =~= klines@);
        }
    }
}

/// One idempotent insert into the expected-timestamp ledger.
pub open spec fn insert_stamp(times: Seq<u64>, t: u64) -> Seq<u64> {
    if times.contains(t) {
        times
    } else {
        times.push(t)
    }
}

/// Idempotent batch insert into the expected-timestamp ledger.
pub open spec fn insert_stamp_batch(times: Seq<u64>, batch: Seq<u64>) -> Seq<u64>
    decreases batch.len(),
{
    if batch.len() == 0 {
        times
    } else {
        insert_stamp(insert_stamp_batch(times, batch.drop_last()), batch.last())
    }
}

/// After a batch insert exactly the old timestamps and the batch's
/// timestamps are present.
pub proof fn lemma_insert_stamp_batch_times(times: Seq<u64>, batch: Seq<u64>)
    ensures
        forall|t: u64| #[trigger]
            insert_stamp_batch(times, batch).contains(t) == (times.contains(t) || batch.contains(
                t,
            )),
    decreases batch.len(),
{
    if batch.len() > 0 {
        lemma_insert_stamp_batch_times(times, batch.drop_last());
        let prev = insert_stamp_batch(times, batch.drop_last());
        assert forall|t: u64| #[trigger]
            insert_stamp_batch(times, batch).contains(t) == (times.contains(t) || batch.contains(
                t,
            )) by {
            lemma_contains_push(prev, batch.last(), t);
            lemma_contains_drop_last(batch, t);
        }
    } else {
        assert(forall|t: u64| !batch.contains(t));
    }
}

/// Membership over a push.
proof fn lemma_contains_push(s: Seq<u64>, v: u64, t: u64)
    ensures
        s.push(v).contains(t) == (s.contains(t) || v == t),
{
    if s.contains(t) {
        let i = choose|i: int| 0 <= i < s.len() && s[i] == t;
        assert(s.push(v)[i] == t);
    }
    if v == t {
        assert(s.push(v)[s.len() as int] == t);
    }
    if s.push(v).contains(t) {
        let i = choose|i: int| 0 <= i < s.push(v).len() && s.push(v)[i] == t;
        if i < s.len() {
            assert(s[i] == t);
        }
    }
}

/// Membership over dropping the last element.
proof fn lemma_contains_drop_last(s: Seq<u64>, t: u64)
    requires
        s.len() > 0,
    ensures
        s.contains(t) == (s.drop_last().contains(t) || s.last() == t),
{
    if s.contains(t) {
        let i = choose|i: int| 0 <= i < s.len() && s[i] == t;
        if i < s.len() - 1 {
            assert(s.drop_last()[i] == t);
        }
    }
    if s.drop_last().contains(t) {
        let i = choose|i: int| 0 <= i < s.drop_last().len() && s.drop_last()[i] == t;
        assert(s[i] == t);
    }
}

/// A batch of timestamps that are all present already changes nothing.
proof fn lemma_insert_stamp_batch_absorbed(times: Seq<u64>, batch: Seq<u64>)
    requires
        forall|i: int| 0 <= i < batch.len() ==> times.contains(#[trigger] batch[i]),
    ensures
        insert_stamp_batch(times, batch) == times,
    decreases batch.len(),
{
    if batch.len() > 0 {
        assert forall|i: int| 0 <= i < batch.drop_last().len() implies times.contains(
            #[trigger] batch.drop_last()[i],
        ) by {
            assert(batch.drop_last()[i] == batch[i]);
        }
        lemma_insert_stamp_batch_absorbed(times, batch.drop_last());
        assert(batch.last() == batch[batch.len() - 1]);
    }
}

/// Inserting the same expected-timestamp batch twice leaves the ledger
/// exactly as one insert leaves it.
pub proof fn lemma_insert_stamp_batch_idempotent(times: Seq<u64>, batch: Seq<u64>)
    ensures
        insert_stamp_batch(insert_stamp_batch(times, batch), batch) == insert_stamp_batch(
            times,
            batch,
        ),
{
    let once = insert_stamp_batch(times, batch);
    lemma_insert_stamp_batch_times(times, batch);
    assert forall|i: int| 0 <= i < batch.len() implies once.contains(#[trigger] batch[i]) by {
        assert(batch.contains(batch[i]));
    }
    lemma_insert_stamp_batch_absorbed(once, batch);
}

/// The in-memory model of one symbol's expected-timestamp ("possible open
/// time") table: the ledger of interval boundaries at which a candle
/// should exist, keyed uniquely by the timestamp itself.
pub struct TimestampTable {
    times: Vec<u64>,
}

impl View for TimestampTable {
    type V = Seq<u64>;

    closed spec fn view(&self) -> Seq<u64> {
        self.times@
    }
}

impl TimestampTable {
    /// Uniqueness invariant: a timestamp appears at most once.
    pub open spec fn wf(&self) -> bool {
        forall|i: int, j: int| 0 <= i < j < self@.len() ==> self@[i] != self@[j]
    }

    pub fn new() -> (r: Self)
        ensures
            r@ == Seq::<u64>::empty(),
            r.wf(),
    {
        TimestampTable { times: Vec::new() }
    }

    pub fn len(&self) -> (r: usize)
        ensures
            r == self@.len(),
    {
        self.times.len()
    }

    pub fn stamp(&self, i: usize) -> (r: u64)
        requires
            i < self@.len(),
        ensures
            r == self@[i as int],
    {
        self.times[i]
    }

    /// Whether the ledger already holds timestamp `t`.
    pub fn contains_stamp(&self, t: u64) -> (r: bool)
        ensures
            r == self@.contains(t),
    {
        let mut i: usize = 0;
        while i < self.times.len()
            invariant
                i <= self.times@.len(),
                self@ == self.times@,
                forall|j: int| 0 <= j < i ==> self.times@[j] != t,
            decreases self.times@.len() - i,
        {
            if self.times[i] == t {
                return true;
            }
            i = i + 1;
        }
        false
    }

    /// Appends a timestamp known to be absent.
    fn push_stamp(&mut self, t: u64)
        requires
            old(self).wf(),
            !old(self)@.contains(t),
        ensures
            final(self)@ == old(self)@.push(t),
            final(self).wf(),
    {
        self.times.push(t);
        proof {
            assert forall|i: int, j: int| 0 <= i < j < self@.len() implies self@[i] != self@[j] by {
                if j == self@.len() - 1 {
                    assert(old(self)@[i] == self@[i]);
                    if self@[i] == t {
                        assert(old(self)@.contains(t));
                    }
                }
            }
        }
    }
}

impl PostgresExecutor {
    /// Idempotent batch insert into the expected-timestamp ledger: each
    /// timestamp goes in only if absent, so regenerating an overlapping
    /// stretch of boundaries is a safe no-op for the already-known ones.
    pub fn insert_possible_open_times(table: &mut TimestampTable, times: &Vec<u64>)
        requires
            old(table).wf(),
        ensures
            final(table)@ == insert_stamp_batch(old(table)@, times@),
            final(table).wf(),
    {
        let ghost times0 = table@;
        let mut i: usize = 0;
        while i < times.len()
            invariant
                i <= times@.len(),
                table@ == insert_stamp_batch(times0, times@.take(i as int)),
                table.wf(),
            decreases times@.len() - i,
        {
            let t = times[i];
            let ghost before = table@;
            if !table.contains_stamp(t) {
                table.push_stamp(t);
            }
            proof {
                assert(times@.take(i + 1 as int).drop_last() =~= times@.take(i as int));
                assert(times@.take(i + 1 as int).last() == times@[i as int]);
                assert(table@ == insert_stamp(before, times@[i as int]));
            }
            i = i + 1;
        }
        proof {
            assert(times@.take(times@.len() as int) =~= times@);
        }
    }
}

impl CandleTable {
    /// Appends a row whose open time is known to be absent.
    fn push_row(&mut self, k: Kline)
        requires
            old(self).wf(),
            !has_time(old(self)@, k.time_open),
        ensures
            final(self)@ == old(self)@.push(k),
            final(self).wf(),
    {
        self.rows.push(k);
        proof {
            assert forall|i: int, j: int| 0 <= i < j < self@.len() implies #[trigger] self@[i].time_open
                != #[trigger] self@[j].time_open by {
                if j < self@.len() - 1 {
                } else {
                    assert(!has_time(old(self)@, k.time_open));
                    assert(self@[j] == k);
                    assert(old(self)@[i] == self@[i]);
                }
            }
        }
    }
}

} // verus!
