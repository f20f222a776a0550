//! A storage backend in memory: one table of `(topic, seq, payload)` rows,
//! with the summaries derived from it by grouped minimum and maximum.

use vstd::prelude::*;

use crate::storage::{Storage, StorageError, StorageErrorKind, StorageItem, StorageTopic};

verus! {

/// One row of the table, as a mathematical value.
pub struct Record {
    pub topic: Seq<char>,
    pub seq: u64,
    pub data: Seq<char>,
}

/// The summary of one topic, as a mathematical value.
pub struct Summary {
    pub name: Seq<char>,
    pub first: u64,
    pub last: u64,
}

/// Whether the rows come by ascending sequence number.
pub open spec fn ascending(rows: Seq<Record>) -> bool {
    forall|i: int, j: int| 0 <= i <= j < rows.len() ==> rows[i].seq <= rows[j].seq
}

/// Where a new row with this sequence number goes in an ascending table:
/// behind every row whose number is not greater.
pub open spec fn slot(rows: Seq<Record>, seq: u64) -> int
    decreases rows.len(),
{
    if rows.len() == 0 || rows.last().seq <= seq {
        rows.len() as int
    } else {
        slot(rows.drop_last(), seq)
    }
}

/// The rows of one topic, in the table's order.
pub open spec fn rows_of(rows: Seq<Record>, topic: Seq<char>) -> Seq<Record> {
    rows.filter(|row: Record| row.topic == topic)
}

/// Whether a list of summaries names this topic.
pub open spec fn named(summaries: Seq<Summary>, name: Seq<char>) -> bool {
    exists|k: int| 0 <= k < summaries.len() && (#[trigger] summaries[k]).name == name
}

/// A summary widened to bound one more sequence number.
pub open spec fn widened(summary: Summary, seq: u64) -> Summary {
    Summary {
        name: summary.name,
        first: if seq < summary.first {
            seq
        } else {
            summary.first
        },
        last: if seq > summary.last {
            seq
        } else {
            summary.last
        },
    }
}

/// The summary of a topic whose only row is this one.
pub open spec fn started(row: Record) -> Summary {
    Summary { name: row.topic, first: row.seq, last: row.seq }
}

/// The summaries after one more row: the row widens the summary of its
/// topic, or starts a summary at the end if its topic has none.
pub open spec fn absorb(summaries: Seq<Summary>, row: Record) -> Seq<Summary> {
    if named(summaries, row.topic) {
        let k = choose|k: int|
            0 <= k < summaries.len() && (#[trigger] summaries[k]).name == row.topic;
        summaries.update(k, widened(summaries[k], row.seq))
    } else {
        summaries.push(started(row))
    }
}

/// The summaries of a table: one per topic that has a row, in the order in
/// which the topics first occur.
pub open spec fn summaries(rows: Seq<Record>) -> Seq<Summary>
    decreases rows.len(),
{
    if rows.len() == 0 {
        Seq::empty()
    } else {
        absorb(summaries(rows.drop_last()), rows.last())
    }
}

/// Whether `summary` holds the lowest and the highest sequence number among
/// the rows of its topic, of which there is at least one.
pub open spec fn bounds_topic(rows: Seq<Record>, summary: Summary) -> bool {
    &&& exists|i: int|
        0 <= i < rows.len() && (#[trigger] rows[i]).topic == summary.name && rows[i].seq
            == summary.first
    &&& exists|i: int|
        0 <= i < rows.len() && (#[trigger] rows[i]).topic == summary.name && rows[i].seq
            == summary.last
    &&& forall|i: int|
        0 <= i < rows.len() && (#[trigger] rows[i]).topic == summary.name ==> summary.first
            <= rows[i].seq <= summary.last
}

/// Whether no two summaries share a name.
pub open spec fn distinct(summaries: Seq<Summary>) -> bool {
    forall|a: int, b: int|
        0 <= a < b < summaries.len() ==> (#[trigger] summaries[a]).name != (
        #[trigger] summaries[b]).name
}

/// The summaries of a table are its grouped minimum and maximum: every topic
/// that has a row has exactly one summary, and the summary holds the lowest
/// and the highest sequence number of the topic's rows.
pub proof fn lemma_summaries_group(rows: Seq<Record>)
    ensures
        distinct(summaries(rows)),
        forall|k: int|
            0 <= k < summaries(rows).len() ==> bounds_topic(rows, #[trigger] summaries(rows)[k]),
        forall|i: int| 0 <= i < rows.len() ==> named(summaries(rows), (#[trigger] rows[i]).topic),
    decreases rows.len(),
{
    if rows.len() > 0 {
        let before = rows.drop_last();
        let row = rows.last();
        let old = summaries(before);
        let new = summaries(rows);
        lemma_summaries_group(before);
        // the place of the summary that the row widens or starts
        let k = if named(old, row.topic) {
            choose|k: int| 0 <= k < old.len() && (#[trigger] old[k]).name == row.topic
        } else {
            old.len() as int
        };
        assert(new[k].name == row.topic);
        assert forall|j: int| 0 <= j < new.len() implies bounds_topic(rows, #[trigger] new[j]) by {
            if j != k {
                assert(new[j] == old[j]);
                lemma_bounds_kept(rows, old[j]);
            } else if named(old, row.topic) {
                lemma_bounds_widened(rows, old[k]);
            } else {
                lemma_bounds_started(rows);
            }
        }
        assert forall|i: int| 0 <= i < rows.len() implies named(
            new,
            (#[trigger] rows[i]).topic,
        ) by {
            if i < before.len() {
                assert(rows[i] == before[i]);
                let w = choose|w: int|
                    0 <= w < old.len() && (#[trigger] old[w]).name == before[i].topic;
                assert(new[w].name == rows[i].topic);
            }
        }
    }
}

/// A summary bounds its topic also after a row of another topic was added.
proof fn lemma_bounds_kept(rows: Seq<Record>, summary: Summary)
    requires
        rows.len() > 0,
        rows.last().topic != summary.name,
        bounds_topic(rows.drop_last(), summary),
    ensures
        bounds_topic(rows, summary),
{
    let before = rows.drop_last();
    let lo = choose|i: int|
        0 <= i < before.len() && (#[trigger] before[i]).topic == summary.name && before[i].seq
            == summary.first;
    let hi = choose|i: int|
        0 <= i < before.len() && (#[trigger] before[i]).topic == summary.name && before[i].seq
            == summary.last;
    assert(rows[lo] == before[lo] && rows[hi] == before[hi]);
    assert forall|i: int| 0 <= i < rows.len() && (#[trigger] rows[i]).topic
        == summary.name implies summary.first <= rows[i].seq <= summary.last by {
        assert(before[i].topic == summary.name);
    }
}

/// A summary widened by a new row of its topic bounds the topic with that row.
proof fn lemma_bounds_widened(rows: Seq<Record>, summary: Summary)
    requires
        rows.len() > 0,
        rows.last().topic == summary.name,
        bounds_topic(rows.drop_last(), summary),
    ensures
        bounds_topic(rows, widened(summary, rows.last().seq)),
{
    let before = rows.drop_last();
    let wide = widened(summary, rows.last().seq);
    let n = before.len() as int;
    let lo = choose|i: int|
        0 <= i < before.len() && (#[trigger] before[i]).topic == summary.name && before[i].seq
            == summary.first;
    let hi = choose|i: int|
        0 <= i < before.len() && (#[trigger] before[i]).topic == summary.name && before[i].seq
            == summary.last;
    assert(rows[lo] == before[lo] && rows[hi] == before[hi] && rows[n] == rows.last());
    let low = if rows.last().seq < summary.first {
        n
    } else {
        lo
    };
    let high = if rows.last().seq > summary.last {
        n
    } else {
        hi
    };
    assert(rows[low].topic == wide.name && rows[low].seq == wide.first);
    assert(rows[high].topic == wide.name && rows[high].seq == wide.last);
    assert forall|i: int| 0 <= i < rows.len() && (#[trigger] rows[i]).topic
        == wide.name implies wide.first <= rows[i].seq <= wide.last by {
        if i < n {
            assert(before[i].topic == summary.name);
        }
    }
}

/// The summary started by the first row of a topic bounds the topic.
proof fn lemma_bounds_started(rows: Seq<Record>)
    requires
        rows.len() > 0,
        forall|i: int|
            0 <= i < rows.len() - 1 ==> (#[trigger] rows.drop_last()[i]).topic != rows.last().topic,
    ensures
        bounds_topic(rows, started(rows.last())),
{
    let before = rows.drop_last();
    let n = before.len() as int;
    assert(rows[n].topic == rows.last().topic && rows[n].seq == rows.last().seq);
    assert forall|i: int| 0 <= i < rows.len() && (#[trigger] rows[i]).topic
        == rows.last().topic implies rows[i].seq == rows.last().seq by {
        if i < n {
            assert(before[i].topic != rows.last().topic);
        }
    }
}

/// Filtering an ascending table leaves an ascending table.
pub proof fn lemma_rows_of_ascending(rows: Seq<Record>, topic: Seq<char>)
    requires
        ascending(rows),
    ensures
        ascending(rows_of(rows, topic)),
        forall|i: int|
            0 <= i < rows_of(rows, topic).len() ==> (#[trigger] rows_of(rows, topic)[i]).topic
                == topic,
        rows_of(rows, topic).len() > 0 ==> rows.len() > 0 && rows_of(rows, topic).last().seq
            <= rows.last().seq,
    decreases rows.len(),
{
    reveal(Seq::filter);
    if rows.len() > 0 {
        let before = rows.drop_last();
        assert forall|i: int, j: int| 0 <= i <= j < before.len() implies before[i].seq
            <= before[j].seq by {
            assert(before[i] == rows[i] && before[j] == rows[j]);
        }
        lemma_rows_of_ascending(before, topic);
        if before.len() > 0 {
            assert(before.last() == rows[rows.len() - 2]);
        }
    }
}

/// A summary as the store hands it out, as a mathematical value.
pub open spec fn summary_of(topic: StorageTopic) -> Summary {
    Summary { name: topic.name@, first: topic.first, last: topic.last }
}

/// A list of summaries as the store hands it out, as a mathematical value.
pub open spec fn summaries_of(topics: Seq<StorageTopic>) -> Seq<Summary> {
    Seq::new(topics.len(), |k: int| summary_of(topics[k]))
}

/// Whether `items` are these rows, in this order.
pub open spec fn items_are(items: Seq<StorageItem>, rows: Seq<Record>) -> bool {
    &&& items.len() == rows.len()
    &&& forall|i: int|
        0 <= i < items.len() ==> (#[trigger] items[i]).seq == rows[i].seq && items[i].data@
            == rows[i].data
}

/// A table with one more row, put where it keeps the table ascending.
pub open spec fn with_row(rows: Seq<Record>, row: Record) -> Seq<Record> {
    rows.insert(slot(rows, row.seq), row)
}

/// In an ascending table the slot of a sequence number parts the rows whose
/// number is not greater from those whose number is greater, so a row put
/// there keeps the table ascending.
pub proof fn lemma_slot_parts(rows: Seq<Record>, seq: u64)
    requires
        ascending(rows),
    ensures
        0 <= slot(rows, seq) <= rows.len(),
        forall|i: int| 0 <= i < slot(rows, seq) ==> (#[trigger] rows[i]).seq <= seq,
        forall|i: int| slot(rows, seq) <= i < rows.len() ==> (#[trigger] rows[i]).seq > seq,
    decreases rows.len(),
{
    if rows.len() > 0 && rows.last().seq > seq {
        let before = rows.drop_last();
        assert forall|i: int, j: int| 0 <= i <= j < before.len() implies before[i].seq
            <= before[j].seq by {
            assert(before[i] == rows[i] && before[j] == rows[j]);
        }
        lemma_slot_parts(before, seq);
        assert forall|i: int| 0 <= i < slot(rows, seq) implies (#[trigger] rows[i]).seq <= seq by {
            assert(rows[i] == before[i]);
        }
        assert forall|i: int| slot(rows, seq) <= i < rows.len() implies (#[trigger] rows[i]).seq
            > seq by {
            if i < before.len() {
                assert(rows[i] == before[i]);
            }
        }
    }
}

/// A row put into its slot keeps an ascending table ascending.
pub proof fn lemma_with_row_ascending(rows: Seq<Record>, row: Record)
    requires
        ascending(rows),
    ensures
        ascending(with_row(rows, row)),
{
    lemma_slot_parts(rows, row.seq);
    let p = slot(rows, row.seq);
    let new = with_row(rows, row);
    assert forall|i: int, j: int| 0 <= i <= j < new.len() implies new[i].seq <= new[j].seq by {
        if i < p {
            assert(new[i] == rows[i]);
        } else if i > p {
            assert(new[i] == rows[i - 1]);
        }
        if j < p {
            assert(new[j] == rows[j]);
        } else if j > p {
            assert(new[j] == rows[j - 1]);
        }
    }
}

/// One row of the table.
struct Row {
    topic: String,
    seq: u64,
    data: String,
}

impl Row {
    spec fn record(&self) -> Record {
        Record { topic: self.topic@, seq: self.seq, data: self.data@ }
    }
}

/// The rows of a table, as mathematical values.
spec fn records(rows: Seq<Row>) -> Seq<Record> {
    Seq::new(rows.len(), |i: int| rows[i].record())
}

/// A table of events in memory. Its rows come by ascending sequence number
/// at all times, rows of equal number in the order of their arrival: a new
/// row goes behind the rows whose number is not greater. The table refuses to
/// grow beyond a limit given at construction.
pub struct MemoryStore {
    rows: Vec<Row>,
    limit: usize,
}

impl View for MemoryStore {
    type V = Seq<Record>;

    closed spec fn view(&self) -> Seq<Record> {
        records(self.rows@)
    }
}

impl MemoryStore {
    /// The invariant of the table: its rows come by ascending sequence
    /// number.
    #[verifier::type_invariant]
    spec fn ordered(&self) -> bool {
        ascending(self@)
    }

    /// The number of rows that the table may hold.
    pub closed spec fn limit(&self) -> usize {
        self.limit
    }

    /// An empty table without a limit of its own.
    pub fn new() -> (store: MemoryStore)
        ensures
            store@.len() == 0,
            ascending(store@),
            store.limit() == usize::MAX,
    {
        MemoryStore { rows: Vec::new(), limit: usize::MAX }
    }

    /// An empty table that accepts `limit` rows and refuses every further one.
    pub fn with_limit(limit: usize) -> (store: MemoryStore)
        ensures
            store@.len() == 0,
            ascending(store@),
            store.limit() == limit,
    {
        MemoryStore { rows: Vec::new(), limit }
    }

    /// The number of rows held.
    pub fn len(&self) -> (len: usize)
        ensures
            len == self@.len(),
    {
        self.rows.len()
    }
}

/// The position of the summary of this name in a list of summaries.
fn position(topics: &Vec<StorageTopic>, name: &String) -> (r: Option<usize>)
    ensures
        match r {
            Some(k) => k < topics@.len() && topics@[k as int].name@ == name@,
            None => !named(summaries_of(topics@), name@),
        },
{
    let mut k: usize = 0;
    while k < topics.len()
        invariant
            k <= topics@.len(),
            forall|j: int| 0 <= j < k ==> (#[trigger] summaries_of(topics@)[j]).name != name@,
        decreases topics@.len() - k,
    {
        if topics[k].name == *name {
            return Some(k);
        }
        k = k + 1;
    }
    None
}

impl Storage for MemoryStore {
    /// The summaries of the table.
    fn topics(&self) -> (r: Result<Vec<StorageTopic>, StorageError>)
        ensures
            ascending(self@),
            r matches Ok(topics) && summaries_of(topics@) == summaries(self@),
    {
        proof {
            use_type_invariant(self);
        }
        let mut topics: Vec<StorageTopic> = Vec::new();
        let mut i: usize = 0;
        while i < self.rows.len()
            invariant
                i <= self.rows@.len(),
                summaries_of(topics@) =~= summaries(self@.take(i as int)),
            decreases self.rows@.len() - i,
        {
            let row = &self.rows[i];
            let ghost seen = self@.take(i as int);
            let ghost before = summaries_of(topics@);
            proof {
                assert(self@.take(i + 1).drop_last() =~= seen);
                assert(self@.take(i + 1).last() == row.record());
                lemma_summaries_group(seen);
            }
            match position(&topics, &row.topic) {
                Some(k) => {
                    let first = if row.seq < topics[k].first {
                        row.seq
                    } else {
                        topics[k].first
                    };
                    let last = if row.seq > topics[k].last {
                        row.seq
                    } else {
                        topics[k].last
                    };
                    proof {
                        assert(before[k as int].name == row.topic@);
                        let chosen = choose|c: int|
                            0 <= c < before.len() && (#[trigger] before[c]).name == row.topic@;
                        assert(chosen == k);
                    }
                    topics.set(k, StorageTopic { name: row.topic.clone(), first, last });
                },
                None => {
                    topics.push(
                        StorageTopic { name: row.topic.clone(), first: row.seq, last: row.seq },
                    );
                },
            }
            assert(summaries_of(topics@) =~= absorb(before, row.record()));
            i = i + 1;
        }
        assert(self@.take(i as int) =~= self@);
        Ok(topics)
    }

    /// Puts one row into the table, behind the rows whose sequence number is
    /// not greater, so that the table stays ascending. A table that holds as
    /// many rows as its limit allows refuses the row and stays as it is.
    fn push(&mut self, topic: &str, seq: u64, data: &str) -> (r: Result<(), StorageError>)
        ensures
            final(self).limit() == old(self).limit(),
            ascending(old(self)@),
            ascending(final(self)@),
            old(self)@.len() < old(self).limit() ==> r is Ok && final(self)@ == with_row(
                old(self)@,
                Record { topic: topic@, seq, data: data@ },
            ),
            old(self)@.len() >= old(self).limit() ==> final(self)@ == old(self)@ && (r matches Err(
                e,
            ) && e.kind == StorageErrorKind::Failed),
    {
        proof {
            use_type_invariant(&*self);
        }
        if self.rows.len() >= self.limit {
            return Err(StorageError::failed("the store is full".to_owned()));
        }
        let ghost rows = self@;
        // the rows leave the table while the new one is put among them
        let mut held: Vec<Row> = Vec::new();
        std::mem::swap(&mut self.rows, &mut held);
        let mut p: usize = held.len();
        assert(rows.take(p as int) =~= rows);
        while p > 0 && held[p - 1].seq > seq
            invariant
                records(held@) == rows,
                p <= held@.len(),
                slot(rows, seq) == slot(rows.take(p as int), seq),
            decreases p,
        {
            proof {
                assert(rows.take(p as int).drop_last() =~= rows.take(p - 1));
            }
            p = p - 1;
        }
        let row = Row { topic: topic.to_owned(), seq, data: data.to_owned() };
        proof {
            lemma_with_row_ascending(rows, row.record());
            assert(records(held@.insert(p as int, row)) =~= rows.insert(p as int, row.record()));
        }
        held.insert(p, row);
        self.rows = held;
        Ok(())
    }

    /// The rows of one topic, in the table's order, which is by ascending
    /// sequence number.
    fn read_all(&self, topic: &str) -> (r: Result<Vec<StorageItem>, StorageError>)
        ensures
            ascending(self@),
            r matches Ok(items) && items_are(items@, rows_of(self@, topic@)),
            r matches Ok(items) ==> forall|i: int, j: int|
                0 <= i <= j < items@.len() ==> items@[i].seq <= items@[j].seq,
    {
        proof {
            use_type_invariant(self);
        }
        let wanted = topic.to_owned();
        let mut items: Vec<StorageItem> = Vec::new();
        let mut i: usize = 0;
        while i < self.rows.len()
            invariant
                wanted@ == topic@,
                i <= self.rows@.len(),
                items_are(items@, rows_of(self@.take(i as int), topic@)),
            decreases self.rows@.len() - i,
        {
            proof {
                reveal(Seq::filter);
                assert(self@.take(i + 1).drop_last() =~= self@.take(i as int));
                assert(self@.take(i + 1).last() == self.rows@[i as int].record());
            }
            if self.rows[i].topic == wanted {
                items.push(StorageItem { seq: self.rows[i].seq, data: self.rows[i].data.clone() });
            }
            i = i + 1;
        }
        proof {
            assert(self@.take(i as int) =~= self@);
            lemma_rows_of_ascending(self@, topic@);
            let kept = rows_of(self@, topic@);
            assert forall|a: int, b: int| 0 <= a <= b < items@.len() implies items@[a].seq
                <= items@[b].seq by {
                assert(items@[a].seq == kept[a].seq && items@[b].seq == kept[b].seq);
            }
        }
        Ok(items)
    }
}

} // verus!
