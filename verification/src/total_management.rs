//! The totals accumulator: per-conversation, per-day records of elapsed
//! session seconds, with an additive keyed upsert, an overwriting setter,
//! and windowed aggregate queries grouped by conversation.
//!
//! The store is modelled as a vector of records with at most one record per
//! `(chat, day)` key; its abstract value is the map from keys to stored
//! totals. Durability is the embedding program's concern: it replays these
//! operations onto whatever backing it keeps.
use crate::dates::{
    date_of_timestamp, in_window, spec_bucket, spec_in_window, spec_window_start, window_start,
    Date, Window, YEAR_MIN,
};
use crate::time::{timestamp_in_range, TS_MAX, TS_MIN};
use vstd::prelude::*;

verus! {

/// One durable row: a conversation, a calendar day, and the seconds
/// accumulated for that day.
#[derive(Clone, Copy, Debug, PartialEq, Eq, Structural)]
pub struct TotalsRecord {
    pub chat_id: i64,
    pub date: Date,
    pub total_seconds: i64,
}

/// Constraint violation inside the store: an accumulated total left the
/// representable range.
#[derive(Clone, Copy, Debug, PartialEq, Eq, Structural)]
pub enum StorageError {
    Overflow,
}

/// Aggregate reducer: total seconds, or the average per stored day.
#[derive(Clone, Copy, Debug, PartialEq, Eq, Structural)]
pub enum Reducer {
    Sum,
    Avg,
}

/// The totals store.
pub struct Total {
    records: Vec<TotalsRecord>,
}

/// The `(chat, day)` key of a record.
pub open spec fn spec_key(r: TotalsRecord) -> (int, Date) {
    (r.chat_id as int, r.date)
}

/// The map that a row sequence denotes; later rows win, though under the
/// store's invariant keys never repeat.
pub open spec fn seq_to_map(s: Seq<TotalsRecord>) -> Map<(int, Date), int>
    decreases s.len(),
{
    if s.len() == 0 {
        Map::empty()
    } else {
        seq_to_map(s.drop_last()).insert(spec_key(s.last()), s.last().total_seconds as int)
    }
}

/// The stored total for a key, or zero when the key is absent.
pub open spec fn spec_get_or_zero(m: Map<(int, Date), int>, chat: int, date: Date) -> int {
    if m.contains_key((chat, date)) {
        m[(chat, date)]
    } else {
        0
    }
}

/// The additive upsert on the abstract map: absent keys start from zero.
pub open spec fn spec_upsert_add(
    m: Map<(int, Date), int>,
    chat: int,
    date: Date,
    delta: int,
) -> Map<(int, Date), int> {
    m.insert((chat, date), spec_get_or_zero(m, chat, date) + delta)
}

impl View for Total {
    type V = Map<(int, Date), int>;

    open spec fn view(&self) -> Map<(int, Date), int> {
        seq_to_map(self.rows())
    }
}

impl Total {
    /// The stored rows, in insertion order.
    pub closed spec fn rows(self) -> Seq<TotalsRecord> {
        self.records@
    }

    /// Store invariant: one row per key, non-negative totals, valid days.
    pub open spec fn wf(self) -> bool {
        &&& forall|i: int, j: int|
            0 <= i < j < self.rows().len() ==> spec_key(self.rows()[i]) != spec_key(self.rows()[j])
        &&& forall|i: int|
            0 <= i < self.rows().len() ==> (#[trigger] self.rows()[i]).total_seconds >= 0
                && self.rows()[i].date.wf()
    }

    /// An empty store.
    pub fn new() -> (r: Total)
        ensures
            r.wf(),
            r@ == Map::<(int, Date), int>::empty(),
            r.rows() == Seq::<TotalsRecord>::empty(),
    {
        let r = Total { records: Vec::new() };
        proof {
            assert(r.rows() =~= Seq::<TotalsRecord>::empty());
        }
        r
    }

    fn find_record(&self, chat_id: i64, date: &Date) -> (r: Option<usize>)
        ensures
            match r {
                Some(i) => i < self.rows().len() && spec_key(self.rows()[i as int]) == (
                    chat_id as int,
                    *date,
                ),
                None => forall|i: int|
                    0 <= i < self.rows().len() ==> spec_key(#[trigger] self.rows()[i]) != (
                        chat_id as int,
                        *date,
                    ),
            },
    {
        let n = self.records.len();
        let mut j: usize = 0;
        while j < n
            invariant
                n == self.rows().len(),
                j <= n,
                forall|i: int|
                    0 <= i < j ==> spec_key(#[trigger] self.rows()[i]) != (chat_id as int, *date),
            decreases n - j,
        {
            let rec = &self.records[j];
            if rec.chat_id == chat_id && rec.date == *date {
                return Some(j);
            }
            j = j + 1;
        }
        None
    }

    /// The stored total for one conversation and one day, if any.
    pub fn get_bucket_total(&self, chat_id: i64, date: &Date) -> (r: Option<i64>)
        requires
            self.wf(),
        ensures
            match r {
                Some(v) => self@.contains_key((chat_id as int, *date)) && v as int == self@[
                    (chat_id as int, *date)
                ] && v >= 0,
                None => !self@.contains_key((chat_id as int, *date)),
            },
    {
        match self.find_record(chat_id, date) {
            Some(i) => {
                proof {
                    lemma_seq_to_map_value(self.rows(), i as int);
                }
                Some(self.records[i].total_seconds)
            },
            None => {
                proof {
                    lemma_seq_to_map_contains(self.rows(), (chat_id as int, *date));
                }
                None
            },
        }
    }

    /// Add `delta_seconds` to the total stored for `(chat_id, date)`,
    /// starting from zero when no row exists. Fails, leaving the store
    /// unchanged, exactly when the new total would not be representable;
    /// returns the new total otherwise.
    pub fn upsert_add(&mut self, chat_id: i64, date: &Date, delta_seconds: i64) -> (r: Result<
        i64,
        StorageError,
    >)
        requires
            old(self).wf(),
            date.wf(),
            0 <= delta_seconds,
        ensures
            final(self).wf(),
            match r {
                Ok(v) => {
                    &&& v as int == spec_get_or_zero(old(self)@, chat_id as int, *date)
                        + delta_seconds
                    &&& final(self)@ == spec_upsert_add(
                        old(self)@,
                        chat_id as int,
                        *date,
                        delta_seconds as int,
                    )
                    &&& v >= 0
                },
                Err(e) => {
                    &&& e == StorageError::Overflow
                    &&& spec_get_or_zero(old(self)@, chat_id as int, *date) + delta_seconds
                        > i64::MAX
                    &&& final(self)@ == old(self)@
                },
            },
            r is Ok <==> spec_get_or_zero(old(self)@, chat_id as int, *date) + delta_seconds
                <= i64::MAX,
    {
        match self.find_record(chat_id, date) {
            Some(i) => {
                proof {
                    lemma_seq_to_map_value(self.rows(), i as int);
                }
                let prev = self.records[i].total_seconds;
                match prev.checked_add(delta_seconds) {
                    Some(new_total) => {
                        let ghost old_rows = self.rows();
                        self.records[i] = TotalsRecord {
                            chat_id,
                            date: *date,
                            total_seconds: new_total,
                        };
                        proof {
                            lemma_seq_to_map_update(
                                old_rows,
                                i as int,
                                self.rows()[i as int],
                            );
                        }
                        Ok(new_total)
                    },
                    None => Err(StorageError::Overflow),
                }
            },
            None => {
                proof {
                    lemma_seq_to_map_contains(self.rows(), (chat_id as int, *date));
                }
                let ghost old_rows = self.rows();
                self.records.push(TotalsRecord { chat_id, date: *date, total_seconds: delta_seconds });
                proof {
                    assert(self.rows().drop_last() =~= old_rows);
                }
                Ok(delta_seconds)
            },
        }
    }

    /// Store `total_seconds` as the total for `(chat_id, today)`, replacing
    /// whatever row existed for that key.
    pub fn set_total_today(&mut self, chat_id: i64, today: &Date, total_seconds: i64)
        requires
            old(self).wf(),
            today.wf(),
            0 <= total_seconds,
        ensures
            final(self).wf(),
            final(self)@ == old(self)@.insert((chat_id as int, *today), total_seconds as int),
    {
        match self.find_record(chat_id, today) {
            Some(i) => {
                let ghost old_rows = self.rows();
                self.records[i] = TotalsRecord { chat_id, date: *today, total_seconds };
                proof {
                    lemma_seq_to_map_update(old_rows, i as int, self.rows()[i as int]);
                }
            },
            None => {
                let ghost old_rows = self.rows();
                self.records.push(TotalsRecord { chat_id, date: *today, total_seconds });
                proof {
                    assert(self.rows().drop_last() =~= old_rows);
                }
            },
        }
    }
}

proof fn lemma_seq_to_map_contains(s: Seq<TotalsRecord>, k: (int, Date))
    ensures
        seq_to_map(s).contains_key(k) <==> exists|i: int| 0 <= i < s.len() && spec_key(s[i]) == k,
    decreases s.len(),
{
    if s.len() > 0 {
        lemma_seq_to_map_contains(s.drop_last(), k);
        if spec_key(s.last()) == k {
            assert(spec_key(s[s.len() - 1]) == k);
        } else if seq_to_map(s).contains_key(k) {
            let i = choose|i: int| 0 <= i < s.drop_last().len() && spec_key(s.drop_last()[i]) == k;
            assert(spec_key(s[i]) == k);
        } else {
            assert forall|i: int| 0 <= i < s.len() && spec_key(s[i]) == k implies false by {
                if i < s.len() - 1 {
                    assert(spec_key(s.drop_last()[i]) == k);
                }
            }
        }
    }
}

proof fn lemma_seq_to_map_value(s: Seq<TotalsRecord>, i: int)
    requires
        forall|p: int, q: int| 0 <= p < q < s.len() ==> spec_key(s[p]) != spec_key(s[q]),
        0 <= i < s.len(),
    ensures
        seq_to_map(s).contains_key(spec_key(s[i])),
        seq_to_map(s)[spec_key(s[i])] == s[i].total_seconds as int,
    decreases s.len(),
{
    if i == s.len() - 1 {
    } else {
        assert(forall|p: int, q: int|
            0 <= p < q < s.drop_last().len() ==> spec_key(s.drop_last()[p]) != spec_key(
                s.drop_last()[q],
            ));
        lemma_seq_to_map_value(s.drop_last(), i);
        assert(spec_key(s[i]) != spec_key(s.last()));
    }
}

proof fn lemma_seq_to_map_update(s: Seq<TotalsRecord>, i: int, r: TotalsRecord)
    requires
        forall|p: int, q: int| 0 <= p < q < s.len() ==> spec_key(s[p]) != spec_key(s[q]),
        0 <= i < s.len(),
        spec_key(r) == spec_key(s[i]),
    ensures
        seq_to_map(s.update(i, r)) == seq_to_map(s).insert(spec_key(r), r.total_seconds as int),
    decreases s.len(),
{
    let t = s.update(i, r);
    if i == s.len() - 1 {
        assert(t.drop_last() =~= s.drop_last());
        assert(t.last() == r);
        assert(seq_to_map(t) =~= seq_to_map(s).insert(spec_key(r), r.total_seconds as int));
    } else {
        assert(t.drop_last() =~= s.drop_last().update(i, r));
        assert(t.last() == s.last());
        assert(forall|p: int, q: int|
            0 <= p < q < s.drop_last().len() ==> spec_key(s.drop_last()[p]) != spec_key(
                s.drop_last()[q],
            ));
        assert(s.drop_last()[i] == s[i]);
        lemma_seq_to_map_update(s.drop_last(), i, r);
        assert(spec_key(s.last()) != spec_key(r));
        assert(seq_to_map(t) =~= seq_to_map(s).insert(spec_key(r), r.total_seconds as int));
    }
}

/// Whether record `r` counts towards chat `c` in the window starting at `ws`.
pub open spec fn spec_counts(r: TotalsRecord, c: int, ws: Option<Date>) -> bool {
    r.chat_id as int == c && spec_in_window(r.date, ws)
}

/// Sum of the stored totals counting towards chat `c` in the window.
pub open spec fn spec_window_sum(s: Seq<TotalsRecord>, c: int, ws: Option<Date>) -> int
    decreases s.len(),
{
    if s.len() == 0 {
        0
    } else {
        spec_window_sum(s.drop_last(), c, ws) + if spec_counts(s.last(), c, ws) {
            s.last().total_seconds as int
        } else {
            0
        }
    }
}

/// Number of stored rows counting towards chat `c` in the window.
pub open spec fn spec_window_count(s: Seq<TotalsRecord>, c: int, ws: Option<Date>) -> int
    decreases s.len(),
{
    if s.len() == 0 {
        0
    } else {
        spec_window_count(s.drop_last(), c, ws) + if spec_counts(s.last(), c, ws) {
            1int
        } else {
            0
        }
    }
}

/// Whether chat `c` has any row inside the window.
pub open spec fn spec_chat_in_window(s: Seq<TotalsRecord>, c: int, ws: Option<Date>) -> bool {
    exists|i: int| 0 <= i < s.len() && spec_counts(#[trigger] s[i], c, ws)
}

/// The reduced value for chat `c`: the window sum, or its average over the
/// days stored in the window (rounding down).
pub open spec fn spec_reduced(
    s: Seq<TotalsRecord>,
    c: int,
    ws: Option<Date>,
    reducer: Reducer,
) -> int {
    match reducer {
        Reducer::Sum => spec_window_sum(s, c, ws),
        Reducer::Avg => spec_window_sum(s, c, ws) / spec_window_count(s, c, ws),
    }
}

/// Whether some output row is for chat `c`.
pub open spec fn spec_rows_contain(rows: Seq<(i64, Option<i64>)>, c: int) -> bool {
    exists|i: int| 0 <= i < rows.len() && (#[trigger] rows[i]).0 as int == c
}

/// What a successful aggregate query returns: one row per chat with a
/// stored day inside the window, in strictly increasing chat order, each
/// carrying that chat's reduced value.
pub open spec fn spec_aggregate_ok(
    s: Seq<TotalsRecord>,
    ws: Option<Date>,
    reducer: Reducer,
    rows: Seq<(i64, Option<i64>)>,
) -> bool {
    &&& forall|i: int, j: int|
        #![trigger rows[i], rows[j]]
        0 <= i < j < rows.len() ==> rows[i].0 < rows[j].0
    &&& forall|i: int|
        0 <= i < rows.len() ==> spec_chat_in_window(s, (#[trigger] rows[i]).0 as int, ws)
    &&& forall|c: int| #[trigger] spec_chat_in_window(s, c, ws) ==> spec_rows_contain(rows, c)
    &&& forall|i: int|
        0 <= i < rows.len() ==> {
            let v = spec_reduced(s, (#[trigger] rows[i]).0 as int, ws, reducer);
            0 <= v <= i64::MAX && rows[i].1 == Some(v as i64)
        }
}

/// Everything an aggregate query's outcome satisfies: on success the rows
/// are as `spec_aggregate_ok` says; the query fails only when summing and
/// only because some conversation's window sum left the representable
/// range.
pub open spec fn spec_aggregate_result(
    s: Seq<TotalsRecord>,
    ws: Option<Date>,
    reducer: Reducer,
    r: Result<Vec<(i64, Option<i64>)>, StorageError>,
) -> bool {
    match r {
        Ok(rows) => spec_aggregate_ok(s, ws, reducer, rows@),
        Err(e) => e == StorageError::Overflow && reducer == Reducer::Sum && exists|c: int|
            #[trigger] spec_chat_in_window(s, c, ws) && spec_window_sum(s, c, ws) > i64::MAX,
    }
}

/// One accumulation cell while an aggregate query walks the rows.
#[derive(Clone, Copy)]
struct Acc {
    chat: i64,
    sum: i128,
    count: usize,
}

spec fn spec_acc_sorted(a: Seq<Acc>) -> bool {
    forall|p: int, q: int| #![trigger a[p], a[q]] 0 <= p < q < a.len() ==> a[p].chat < a[q].chat
}

spec fn spec_acc_contains(a: Seq<Acc>, c: int) -> bool {
    exists|p: int| 0 <= p < a.len() && (#[trigger] a[p]).chat as int == c
}

fn find_acc_pos(acc: &Vec<Acc>, chat: i64) -> (r: (usize, bool))
    requires
        spec_acc_sorted(acc@),
    ensures
        r.1 ==> r.0 < acc@.len() && acc@[r.0 as int].chat == chat,
        !r.1 ==> r.0 <= acc@.len() && (forall|p: int|
            0 <= p < r.0 ==> (#[trigger] acc@[p]).chat < chat) && (forall|p: int|
            r.0 <= p < acc@.len() ==> (#[trigger] acc@[p]).chat > chat),
{
    let n = acc.len();
    let mut p: usize = 0;
    while p < n
        invariant
            n == acc@.len(),
            p <= n,
            spec_acc_sorted(acc@),
            forall|q: int| 0 <= q < p ==> (#[trigger] acc@[q]).chat < chat,
        decreases n - p,
    {
        let c = acc[p].chat;
        if c == chat {
            return (p, true);
        }
        if c > chat {
            return (p, false);
        }
        p = p + 1;
    }
    (n, false)
}

proof fn lemma_window_take_step(s: Seq<TotalsRecord>, j: int, c: int, ws: Option<Date>)
    requires
        0 <= j < s.len(),
    ensures
        spec_window_sum(s.take(j + 1), c, ws) == spec_window_sum(s.take(j), c, ws) + if spec_counts(
            s[j],
            c,
            ws,
        ) {
            s[j].total_seconds as int
        } else {
            0
        },
        spec_window_count(s.take(j + 1), c, ws) == spec_window_count(s.take(j), c, ws)
            + if spec_counts(s[j], c, ws) {
            1int
        } else {
            0
        },
        spec_chat_in_window(s.take(j + 1), c, ws) <==> (spec_chat_in_window(s.take(j), c, ws)
            || spec_counts(s[j], c, ws)),
{
    assert(s.take(j + 1).drop_last() =~= s.take(j));
    assert(s.take(j + 1).last() == s[j]);
    if spec_chat_in_window(s.take(j), c, ws) {
        let i = choose|i: int| 0 <= i < s.take(j).len() && spec_counts(s.take(j)[i], c, ws);
        assert(spec_counts(s.take(j + 1)[i], c, ws));
    }
    if spec_counts(s[j], c, ws) {
        assert(spec_counts(s.take(j + 1)[j], c, ws));
    }
    if spec_chat_in_window(s.take(j + 1), c, ws) {
        let i = choose|i: int|
            0 <= i < s.take(j + 1).len() && spec_counts(#[trigger] s.take(j + 1)[i], c, ws);
        if i < j {
            assert(spec_counts(s.take(j)[i], c, ws));
        }
    }
}

proof fn lemma_window_absent_zero(s: Seq<TotalsRecord>, c: int, ws: Option<Date>)
    requires
        !spec_chat_in_window(s, c, ws),
    ensures
        spec_window_sum(s, c, ws) == 0,
        spec_window_count(s, c, ws) == 0,
    decreases s.len(),
{
    if s.len() > 0 {
        assert(!spec_chat_in_window(s.drop_last(), c, ws)) by {
            if spec_chat_in_window(s.drop_last(), c, ws) {
                let i = choose|i: int|
                    0 <= i < s.drop_last().len() && spec_counts(#[trigger] s.drop_last()[i], c, ws);
                assert(spec_counts(s[i], c, ws));
            }
        }
        lemma_window_absent_zero(s.drop_last(), c, ws);
        assert(!spec_counts(s.last(), c, ws)) by {
            if spec_counts(s.last(), c, ws) {
                assert(spec_counts(s[s.len() - 1], c, ws));
            }
        }
    }
}

proof fn lemma_window_sum_bounds(s: Seq<TotalsRecord>, c: int, ws: Option<Date>)
    requires
        forall|i: int| 0 <= i < s.len() ==> (#[trigger] s[i]).total_seconds >= 0,
    ensures
        0 <= spec_window_count(s, c, ws) <= s.len(),
        0 <= spec_window_sum(s, c, ws) <= spec_window_count(s, c, ws) * (i64::MAX as int),
        spec_chat_in_window(s, c, ws) ==> spec_window_count(s, c, ws) >= 1,
    decreases s.len(),
{
    if s.len() == 0 {
    } else {
        assert(forall|i: int|
            0 <= i < s.drop_last().len() ==> (#[trigger] s.drop_last()[i]).total_seconds >= 0);
        lemma_window_sum_bounds(s.drop_last(), c, ws);
        let k = spec_window_count(s.drop_last(), c, ws);
        let m = i64::MAX as int;
        if spec_counts(s.last(), c, ws) {
            assert(s.last().total_seconds >= 0);
            assert((k + 1) * m == k * m + m) by (nonlinear_arith);
        } else {
            assert(spec_window_count(s, c, ws) == k);
        }
        if spec_chat_in_window(s, c, ws) && !spec_counts(s.last(), c, ws) {
            let i = choose|i: int| 0 <= i < s.len() && spec_counts(s[i], c, ws);
            assert(spec_counts(s.drop_last()[i], c, ws));
        }
    }
}

impl Total {
    /// Aggregate the stored totals per conversation over a window reckoned
    /// from `today`: one output row per conversation with a stored day
    /// inside the window, in increasing conversation order, valued by the
    /// reducer. A sum that leaves the representable range fails the query;
    /// averages round down and always succeed.
    pub fn aggregate_by_window(&self, today: &Date, w: Window, reducer: Reducer) -> (r: Result<
        Vec<(i64, Option<i64>)>,
        StorageError,
    >)
        requires
            self.wf(),
            today.wf(),
            today.year > YEAR_MIN,
        ensures
            spec_aggregate_result(self.rows(), spec_window_start(*today, w), reducer, r),
    {
        let ws: Option<Date> = window_start(today, w);
        let ghost s = self.rows();
        let n = self.records.len();
        let mut acc: Vec<Acc> = Vec::new();
        let mut j: usize = 0;
        while j < n
            invariant
                n == s.len(),
                s == self.rows(),
                self.wf(),
                ws == spec_window_start(*today, w),
                j <= n,
                spec_acc_sorted(acc@),
                forall|p: int|
                    0 <= p < acc@.len() ==> spec_chat_in_window(
                        s.take(j as int),
                        (#[trigger] acc@[p]).chat as int,
                        ws,
                    ),
                forall|c: int|
                    #[trigger] spec_chat_in_window(s.take(j as int), c, ws) ==> spec_acc_contains(
                        acc@,
                        c,
                    ),
                forall|p: int|
                    0 <= p < acc@.len() ==> (#[trigger] acc@[p]).sum as int == spec_window_sum(
                        s.take(j as int),
                        acc@[p].chat as int,
                        ws,
                    ) && acc@[p].count as int == spec_window_count(
                        s.take(j as int),
                        acc@[p].chat as int,
                        ws,
                    ) && 1 <= acc@[p].count <= j,
            decreases n - j,
        {
            let ghost j0 = j as int;
            let rec = self.records[j];
            proof {
                assert(rec == s[j0]);
            }
            if in_window(&rec.date, &ws) {
                let (pos, found) = find_acc_pos(&acc, rec.chat_id);
                let ghost acc0 = acc@;
                if found {
                    let cell = acc[pos];
                    proof {
                        lemma_window_sum_bounds(s.take(j0), cell.chat as int, ws);
                        assert(cell.count as int * (i64::MAX as int) <= s.take(j0).len() * (
                        i64::MAX as int)) by (nonlinear_arith)
                            requires
                                0 <= cell.count as int <= s.take(j0).len(),
                        ;
                    }
                    let new_cell = Acc {
                        chat: cell.chat,
                        sum: cell.sum + rec.total_seconds as i128,
                        count: cell.count + 1,
                    };
                    acc[pos] = new_cell;
                    proof {
                        assert forall|p: int| 0 <= p < acc@.len() implies spec_chat_in_window(
                            s.take(j0 + 1),
                            (#[trigger] acc@[p]).chat as int,
                            ws,
                        ) && acc@[p].sum as int == spec_window_sum(
                            s.take(j0 + 1),
                            acc@[p].chat as int,
                            ws,
                        ) && acc@[p].count as int == spec_window_count(
                            s.take(j0 + 1),
                            acc@[p].chat as int,
                            ws,
                        ) && 1 <= acc@[p].count <= j0 + 1 by {
                            lemma_window_take_step(s, j0, acc@[p].chat as int, ws);
                            if p != pos as int {
                                assert(acc@[p] == acc0[p]);
                            }
                        }
                        assert forall|c: int| #[trigger] spec_chat_in_window(
                            s.take(j0 + 1),
                            c,
                            ws,
                        ) implies spec_acc_contains(acc@, c) by {
                            lemma_window_take_step(s, j0, c, ws);
                            if spec_chat_in_window(s.take(j0), c, ws) {
                                let p = choose|p: int|
                                    0 <= p < acc0.len() && (#[trigger] acc0[p]).chat as int == c;
                                assert((acc@[p]).chat as int == c);
                            } else {
                                assert(c == rec.chat_id as int);
                                assert((acc@[pos as int]).chat as int == c);
                            }
                        }
                    }
                } else {
                    let new_cell = Acc { chat: rec.chat_id, sum: rec.total_seconds as i128, count: 1 };
                    acc.insert(pos, new_cell);
                    proof {
                        let ghost acc1 = acc@;
                        assert(acc1.len() == acc0.len() + 1);
                        assert forall|p: int| 0 <= p < acc1.len() implies spec_chat_in_window(
                            s.take(j0 + 1),
                            (#[trigger] acc1[p]).chat as int,
                            ws,
                        ) && acc1[p].sum as int == spec_window_sum(
                            s.take(j0 + 1),
                            acc1[p].chat as int,
                            ws,
                        ) && acc1[p].count as int == spec_window_count(
                            s.take(j0 + 1),
                            acc1[p].chat as int,
                            ws,
                        ) && 1 <= acc1[p].count <= j0 + 1 by {
                            lemma_window_take_step(s, j0, acc1[p].chat as int, ws);
                            if p < pos as int {
                                assert(acc1[p] == acc0[p]);
                                assert(acc1[p].chat != rec.chat_id);
                            } else if p > pos as int {
                                assert(acc1[p] == acc0[p - 1]);
                                assert(acc1[p].chat != rec.chat_id);
                            } else {
                                assert(acc1[p] == new_cell);
                                assert(!spec_chat_in_window(s.take(j0), rec.chat_id as int, ws));
                                lemma_window_absent_zero(s.take(j0), rec.chat_id as int, ws);
                                assert(spec_counts(s[j0], rec.chat_id as int, ws));
                            }
                        }
                        assert(spec_acc_sorted(acc1)) by {
                            assert forall|p: int, q: int|
                                #![trigger acc1[p], acc1[q]]
                                0 <= p < q < acc1.len() implies acc1[p].chat < acc1[q].chat by {
                                if q < pos as int {
                                } else if p > pos as int {
                                    assert(acc1[p] == acc0[p - 1]);
                                    assert(acc1[q] == acc0[q - 1]);
                                } else if p < pos as int && q == pos as int {
                                    assert(acc1[p] == acc0[p]);
                                } else if p == pos as int && q > pos as int {
                                    assert(acc1[q] == acc0[q - 1]);
                                } else if p < pos as int && q > pos as int {
                                    assert(acc1[p] == acc0[p]);
                                    assert(acc1[q] == acc0[q - 1]);
                                }
                            }
                        }
                        assert forall|c: int| #[trigger] spec_chat_in_window(
                            s.take(j0 + 1),
                            c,
                            ws,
                        ) implies spec_acc_contains(acc1, c) by {
                            lemma_window_take_step(s, j0, c, ws);
                            if spec_chat_in_window(s.take(j0), c, ws) {
                                let p = choose|p: int|
                                    0 <= p < acc0.len() && (#[trigger] acc0[p]).chat as int == c;
                                if p < pos as int {
                                    assert((acc1[p]).chat as int == c);
                                } else {
                                    assert((acc1[p + 1]).chat as int == c);
                                }
                            } else {
                                assert((acc1[pos as int]).chat as int == c);
                            }
                        }
                    }
                }
            } else {
                proof {
                    assert forall|p: int| 0 <= p < acc@.len() implies spec_chat_in_window(
                        s.take(j0 + 1),
                        (#[trigger] acc@[p]).chat as int,
                        ws,
                    ) && acc@[p].sum as int == spec_window_sum(
                        s.take(j0 + 1),
                        acc@[p].chat as int,
                        ws,
                    ) && acc@[p].count as int == spec_window_count(
                        s.take(j0 + 1),
                        acc@[p].chat as int,
                        ws,
                    ) by {
                        lemma_window_take_step(s, j0, acc@[p].chat as int, ws);
                    }
                    assert forall|c: int| #[trigger] spec_chat_in_window(
                        s.take(j0 + 1),
                        c,
                        ws,
                    ) implies spec_acc_contains(acc@, c) by {
                        lemma_window_take_step(s, j0, c, ws);
                        assert(!spec_counts(s[j0], c, ws));
                    }
                }
            }
            j = j + 1;
        }
        proof {
            assert(s.take(n as int) =~= s);
        }
        let m = acc.len();
        let mut out: Vec<(i64, Option<i64>)> = Vec::new();
        let mut p: usize = 0;
        while p < m
            invariant
                m == acc@.len(),
                p <= m,
                out@.len() == p,
                s == self.rows(),
                self.wf(),
                ws == spec_window_start(*today, w),
                spec_acc_sorted(acc@),
                forall|q: int|
                    0 <= q < acc@.len() ==> spec_chat_in_window(
                        s,
                        (#[trigger] acc@[q]).chat as int,
                        ws,
                    ),
                forall|c: int|
                    #[trigger] spec_chat_in_window(s, c, ws) ==> spec_acc_contains(acc@, c),
                forall|q: int|
                    0 <= q < acc@.len() ==> (#[trigger] acc@[q]).sum as int == spec_window_sum(
                        s,
                        acc@[q].chat as int,
                        ws,
                    ) && acc@[q].count as int == spec_window_count(s, acc@[q].chat as int, ws) && 1
                        <= acc@[q].count,
                forall|q: int| 0 <= q < p ==> (#[trigger] out@[q]).0 == acc@[q].chat,
                forall|q: int|
                    0 <= q < p ==> {
                        let v = spec_reduced(s, (#[trigger] out@[q]).0 as int, ws, reducer);
                        0 <= v <= i64::MAX && out@[q].1 == Some(v as i64)
                    },
            decreases m - p,
        {
            let cell = acc[p];
            match reducer {
                Reducer::Sum => {
                    if cell.sum > i64::MAX as i128 {
                        proof {
                            let c = cell.chat as int;
                            assert(spec_chat_in_window(self.rows(), c, spec_window_start(*today, w)));
                            assert(spec_window_sum(self.rows(), c, spec_window_start(*today, w))
                                > i64::MAX);
                        }
                        return Err(StorageError::Overflow);
                    }
                    proof {
                        lemma_window_sum_bounds(s, cell.chat as int, ws);
                    }
                    out.push((cell.chat, Some(cell.sum as i64)));
                },
                Reducer::Avg => {
                    proof {
                        lemma_window_sum_bounds(s, cell.chat as int, ws);
                        let sum = spec_window_sum(s, cell.chat as int, ws);
                        let cnt = spec_window_count(s, cell.chat as int, ws);
                        let mx = i64::MAX as int;
                        vstd::arithmetic::div_mod::lemma_div_is_ordered(sum, cnt * mx, cnt);
                        vstd::arithmetic::div_mod::lemma_div_multiples_vanish(mx, cnt);
                        assert(cnt * mx == mx * cnt) by (nonlinear_arith);
                        assert(sum / cnt <= mx);
                        vstd::arithmetic::div_mod::lemma_div_pos_is_pos(sum, cnt);
                    }
                    let v = cell.sum.checked_div_euclid(cell.count as i128).unwrap();
                    out.push((cell.chat, Some(v as i64)));
                },
            }
            p = p + 1;
        }
        proof {
            assert forall|c: int| #[trigger] spec_chat_in_window(s, c, ws) implies spec_rows_contain(
                out@,
                c,
            ) by {
                let q = choose|q: int| 0 <= q < acc@.len() && (#[trigger] acc@[q]).chat as int == c;
                assert((out@[q]).0 as int == c);
            }
        }
        Ok(out)
    }
}

impl Total {
    /// The stored total for the conversation on the calendar day that
    /// `timestamp` falls on; `None` when no row exists or the timestamp is
    /// out of range.
    pub fn get_total_timestamp_day(&self, timestamp: i64, chat_id: i64) -> (r: Option<i64>)
        requires
            self.wf(),
        ensures
            !timestamp_in_range(timestamp as int) ==> r is None,
            timestamp_in_range(timestamp as int) ==> match r {
                Some(v) => {
                    &&& self@.contains_key((chat_id as int, spec_bucket(timestamp as int)))
                    &&& v as int == self@[(chat_id as int, spec_bucket(timestamp as int))]
                    &&& v >= 0
                },
                None => !self@.contains_key((chat_id as int, spec_bucket(timestamp as int))),
            },
    {
        match date_of_timestamp(timestamp) {
            Some(d) => self.get_bucket_total(chat_id, &d),
            None => None,
        }
    }

    /// Record a closed session that ran from `start` to `end`: the elapsed
    /// seconds (a negative difference counts as zero) are added to the
    /// bucket of the session start's calendar day, and the new total for
    /// that bucket is returned. When either timestamp is out of range
    /// nothing is recorded and the reported total is zero; when the new
    /// total would not be representable the store is left unchanged.
    pub fn record_close(&mut self, chat_id: i64, start: i64, end: i64) -> (r: Result<
        i64,
        StorageError,
    >)
        requires
            old(self).wf(),
        ensures
            final(self).wf(),
            !(timestamp_in_range(start as int) && timestamp_in_range(end as int)) ==> final(self)@
                == old(self)@ && r == Ok::<i64, StorageError>(0),
            timestamp_in_range(start as int) && timestamp_in_range(end as int) ==> ({
                let bucket = spec_bucket(start as int);
                let delta = if end >= start {
                    end - start
                } else {
                    0
                };
                match r {
                    Ok(v) => {
                        &&& v as int == spec_get_or_zero(old(self)@, chat_id as int, bucket)
                            + delta
                        &&& final(self)@ == spec_upsert_add(
                            old(self)@,
                            chat_id as int,
                            bucket,
                            delta,
                        )
                    },
                    Err(e) => {
                        &&& e == StorageError::Overflow
                        &&& spec_get_or_zero(old(self)@, chat_id as int, bucket) + delta
                            > i64::MAX
                        &&& final(self)@ == old(self)@
                    },
                }
            }),
    {
        if !(TS_MIN <= start && start <= TS_MAX && TS_MIN <= end && end <= TS_MAX) {
            return Ok(0);
        }
        let d = date_of_timestamp(start).unwrap();
        let delta: i64 = if end >= start {
            end - start
        } else {
            0
        };
        self.upsert_add(chat_id, &d, delta)
    }

    /// The running total that closing now would leave for the session
    /// start's day: the stored total for that day plus the elapsed seconds
    /// (zero when a timestamp is out of range), saturating at the
    /// representable maximum.
    pub fn get_total(&self, chat_id: i64, start_timestamp: i64, end_timestamp: i64) -> (r: i64)
        requires
            self.wf(),
        ensures
            ({
                let diff = if timestamp_in_range(start_timestamp as int) && timestamp_in_range(
                    end_timestamp as int,
                ) {
                    end_timestamp - start_timestamp
                } else {
                    0
                };
                let prev = if timestamp_in_range(start_timestamp as int) {
                    spec_get_or_zero(self@, chat_id as int, spec_bucket(start_timestamp as int))
                } else {
                    0
                };
                r as int == if prev + diff > i64::MAX {
                    i64::MAX as int
                } else {
                    prev + diff
                }
            }),
    {
        let diff = crate::time::get_seconds_difference(start_timestamp, end_timestamp);
        let prev = match self.get_total_timestamp_day(start_timestamp, chat_id) {
            Some(v) => v,
            None => 0,
        };
        proof {
            if timestamp_in_range(start_timestamp as int) && !self@.contains_key(
                (chat_id as int, spec_bucket(start_timestamp as int)),
            ) {
                assert(spec_get_or_zero(
                    self@,
                    chat_id as int,
                    spec_bucket(start_timestamp as int),
                ) == 0);
            }
        }
        match prev.checked_add(diff) {
            Some(v) => v,
            None => i64::MAX,
        }
    }

    /// Average stored seconds per day for each conversation, over every
    /// stored day.
    pub fn get_average_total_per_day_by_chat(&self, today: &Date) -> (r: Result<
        Vec<(i64, Option<i64>)>,
        StorageError,
    >)
        requires
            self.wf(),
            today.wf(),
            today.year > YEAR_MIN,
        ensures
            r is Ok,
            spec_aggregate_result(self.rows(), spec_window_start(*today, Window::Day), Reducer::Avg, r),
    {
        self.aggregate_by_window(today, Window::Day, Reducer::Avg)
    }

    /// Average stored seconds per day for each conversation, over the days
    /// since the start of the current month.
    pub fn get_average_total_per_month_by_chat(&self, today: &Date) -> (r: Result<
        Vec<(i64, Option<i64>)>,
        StorageError,
    >)
        requires
            self.wf(),
            today.wf(),
            today.year > YEAR_MIN,
        ensures
            r is Ok,
            spec_aggregate_result(
                self.rows(),
                spec_window_start(*today, Window::Month),
                Reducer::Avg,
                r,
            ),
    {
        self.aggregate_by_window(today, Window::Month, Reducer::Avg)
    }

    /// Average stored seconds per day for each conversation, over the days
    /// since the start of the current week.
    pub fn get_average_total_per_week_by_chat(&self, today: &Date) -> (r: Result<
        Vec<(i64, Option<i64>)>,
        StorageError,
    >)
        requires
            self.wf(),
            today.wf(),
            today.year > YEAR_MIN,
        ensures
            r is Ok,
            spec_aggregate_result(
                self.rows(),
                spec_window_start(*today, Window::Week),
                Reducer::Avg,
                r,
            ),
    {
        self.aggregate_by_window(today, Window::Week, Reducer::Avg)
    }

    /// Average stored seconds per day for each conversation, over the days
    /// since the start of the current year.
    pub fn get_average_total_per_year_by_chat(&self, today: &Date) -> (r: Result<
        Vec<(i64, Option<i64>)>,
        StorageError,
    >)
        requires
            self.wf(),
            today.wf(),
            today.year > YEAR_MIN,
        ensures
            r is Ok,
            spec_aggregate_result(
                self.rows(),
                spec_window_start(*today, Window::Year),
                Reducer::Avg,
                r,
            ),
    {
        self.aggregate_by_window(today, Window::Year, Reducer::Avg)
    }

    /// Total stored seconds for each conversation, over every stored day.
    pub fn get_total_seconds_grouped_by_chat(&self, today: &Date) -> (r: Result<
        Vec<(i64, Option<i64>)>,
        StorageError,
    >)
        requires
            self.wf(),
            today.wf(),
            today.year > YEAR_MIN,
        ensures
            spec_aggregate_result(self.rows(), spec_window_start(*today, Window::Day), Reducer::Sum, r),
    {
        self.aggregate_by_window(today, Window::Day, Reducer::Sum)
    }

    /// Total stored seconds for each conversation since the start of the
    /// current month.
    pub fn get_total_seconds_grouped_by_month(&self, today: &Date) -> (r: Result<
        Vec<(i64, Option<i64>)>,
        StorageError,
    >)
        requires
            self.wf(),
            today.wf(),
            today.year > YEAR_MIN,
        ensures
            spec_aggregate_result(
                self.rows(),
                spec_window_start(*today, Window::Month),
                Reducer::Sum,
                r,
            ),
    {
        self.aggregate_by_window(today, Window::Month, Reducer::Sum)
    }

    /// Total stored seconds for each conversation since the start of the
    /// current week.
    pub fn get_total_seconds_grouped_by_week(&self, today: &Date) -> (r: Result<
        Vec<(i64, Option<i64>)>,
        StorageError,
    >)
        requires
            self.wf(),
            today.wf(),
            today.year > YEAR_MIN,
        ensures
            spec_aggregate_result(
                self.rows(),
                spec_window_start(*today, Window::Week),
                Reducer::Sum,
                r,
            ),
    {
        self.aggregate_by_window(today, Window::Week, Reducer::Sum)
    }

    /// Total stored seconds for each conversation since the start of the
    /// current year.
    pub fn get_total_seconds_grouped_by_year(&self, today: &Date) -> (r: Result<
        Vec<(i64, Option<i64>)>,
        StorageError,
    >)
        requires
            self.wf(),
            today.wf(),
            today.year > YEAR_MIN,
        ensures
            spec_aggregate_result(
                self.rows(),
                spec_window_start(*today, Window::Year),
                Reducer::Sum,
                r,
            ),
    {
        self.aggregate_by_window(today, Window::Year, Reducer::Sum)
    }
}

/// Accumulation is additive, not overwriting: adding `d1` and then `d2`
/// for the same conversation and day, starting from a store without that
/// key, leaves `d1 + d2` as that key's total.
pub proof fn lemma_upsert_add_accumulates(
    m: Map<(int, Date), int>,
    chat: int,
    day: Date,
    d1: int,
    d2: int,
)
    requires
        !m.contains_key((chat, day)),
    ensures
        spec_get_or_zero(spec_upsert_add(spec_upsert_add(m, chat, day, d1), chat, day, d2), chat, day)
            == d1 + d2,
{
}

/// A sum aggregate over exactly two conversations with one stored row
/// each, both inside the window, returns exactly two rows, each carrying
/// that conversation's single stored value — whichever order the two rows
/// were stored in.
pub proof fn lemma_aggregate_two_singletons(
    s: Seq<TotalsRecord>,
    ws: Option<Date>,
    rows: Seq<(i64, Option<i64>)>,
)
    requires
        s.len() == 2,
        s[0].chat_id != s[1].chat_id,
        s[0].total_seconds >= 0,
        s[1].total_seconds >= 0,
        spec_in_window(s[0].date, ws),
        spec_in_window(s[1].date, ws),
        spec_aggregate_ok(s, ws, Reducer::Sum, rows),
    ensures
        rows.len() == 2,
        spec_rows_contain(rows, s[0].chat_id as int),
        spec_rows_contain(rows, s[1].chat_id as int),
        forall|i: int|
            0 <= i < rows.len() ==> ((#[trigger] rows[i]).0 == s[0].chat_id && rows[i].1 == Some(
                s[0].total_seconds,
            )) || (rows[i].0 == s[1].chat_id && rows[i].1 == Some(s[1].total_seconds)),
{
    let c0 = s[0].chat_id as int;
    let c1 = s[1].chat_id as int;
    let s1 = s.drop_last();
    assert(s1.len() == 1);
    assert(s1[0] == s[0]);
    assert(s1.drop_last().len() == 0);
    assert(spec_counts(s[0], c0, ws));
    assert(spec_counts(s[1], c1, ws));
    assert(spec_chat_in_window(s, c0, ws));
    assert(spec_chat_in_window(s, c1, ws));
    assert(spec_window_sum(s1.drop_last(), c0, ws) == 0);
    assert(spec_window_sum(s1.drop_last(), c1, ws) == 0);
    assert(s1.last() == s[0]);
    assert(s.last() == s[1]);
    assert(spec_window_sum(s1, c0, ws) == s[0].total_seconds as int);
    assert(spec_window_sum(s, c0, ws) == s[0].total_seconds as int);
    assert(spec_window_sum(s1, c1, ws) == 0);
    assert(spec_window_sum(s, c1, ws) == s[1].total_seconds as int);
    assert(spec_rows_contain(rows, c0));
    assert(spec_rows_contain(rows, c1));
    let i0 = choose|i: int| 0 <= i < rows.len() && (#[trigger] rows[i]).0 as int == c0;
    let i1 = choose|i: int| 0 <= i < rows.len() && (#[trigger] rows[i]).0 as int == c1;
    assert(i0 != i1);
    assert(rows.len() >= 2);
    assert forall|i: int| 0 <= i < rows.len() implies (#[trigger] rows[i]).0 as int == c0 || rows[i].0
        as int == c1 by {
        assert(spec_chat_in_window(s, rows[i].0 as int, ws));
        let k = choose|k: int| 0 <= k < s.len() && spec_counts(#[trigger] s[k], rows[i].0 as int, ws);
        assert(k == 0 || k == 1);
    }
    if rows.len() >= 3 {
        assert(rows[0].0 < rows[1].0 && rows[1].0 < rows[2].0);
        assert(false);
    }
}

} // verus!
