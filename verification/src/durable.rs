//! The store and the cache in step.
//!
//! A core lets a payload show only after the store has acknowledged it, under
//! the sequence number after `last`. What follows from that discipline is
//! stated here over the table of the in-memory store: the rows that the table
//! holds of a topic are at every moment the topic's events, numbered from
//! `first` to `last` without a gap or a duplicate, and a load of the table
//! brings the very same topic back, however often it is repeated.

use vstd::prelude::*;

use crate::agency::{answered, event_lists, loadable, loaded, loads_to};
use crate::memory::{
    ascending, items_are, lemma_slot_parts, lemma_summaries_group, rows_of, slot, summaries,
    summaries_of, summary_of, with_row, MemoryStore, Record,
};
use crate::storage::{answers_read_all, payloads, StorageItem, StorageTopic};
use crate::topic::{consistent, hydrated, TopicLog};

verus! {

/// Whether the table holds exactly the events of the topic: the rows of the
/// topic's name, in the table's order, carry the sequence numbers `first`,
/// `first + 1`, and so on, with the topic's payloads.
pub open spec fn mirrors(rows: Seq<Record>, topic: TopicLog) -> bool {
    let held = rows_of(rows, topic.name);
    &&& held.len() == topic.entries.len()
    &&& forall|i: int|
        0 <= i < held.len() ==> (#[trigger] held[i]).seq == topic.first + i && held[i].data
            == topic.entries[i]
}

/// The rows of a topic in two tables joined are its rows in the first
/// followed by its rows in the second.
pub proof fn lemma_rows_of_joined(front: Seq<Record>, back: Seq<Record>, topic: Seq<char>)
    ensures
        rows_of(front + back, topic) == rows_of(front, topic) + rows_of(back, topic),
    decreases back.len(),
{
    reveal(Seq::filter);
    if back.len() > 0 {
        lemma_rows_of_joined(front, back.drop_last(), topic);
    }
}

/// The rows of a topic are those rows of the table that carry its name: each
/// of them is in the table, and each row of the table with that name is
/// among them.
pub proof fn lemma_rows_of_members(rows: Seq<Record>, topic: Seq<char>)
    ensures
        forall|j: int|
            0 <= j < rows_of(rows, topic).len() ==> (#[trigger] rows_of(rows, topic)[j]).topic
                == topic && rows.contains(rows_of(rows, topic)[j]),
        forall|i: int|
            0 <= i < rows.len() && (#[trigger] rows[i]).topic == topic ==> rows_of(
                rows,
                topic,
            ).contains(rows[i]),
    decreases rows.len(),
{
    reveal(Seq::filter);
    if rows.len() > 0 {
        let before = rows.drop_last();
        let held = rows_of(rows, topic);
        let earlier = rows_of(before, topic);
        lemma_rows_of_members(before, topic);
        assert forall|j: int| 0 <= j < held.len() implies (#[trigger] held[j]).topic == topic
            && rows.contains(held[j]) by {
            if j < earlier.len() {
                let i = choose|i: int| 0 <= i < before.len() && before[i] == earlier[j];
                assert(rows[i] == held[j]);
            }
        }
        assert forall|i: int| 0 <= i < rows.len() && (#[trigger] rows[i]).topic
            == topic implies held.contains(rows[i]) by {
            if i < before.len() {
                let j = choose|j: int| 0 <= j < earlier.len() && earlier[j] == before[i];
                assert(held[j] == rows[i]);
            }
        }
    }
}

/// A table without a row of a topic's name mirrors the topic while it is
/// empty.
pub proof fn lemma_new_topic_is_mirrored(rows: Seq<Record>, name: Seq<char>)
    requires
        forall|i: int| 0 <= i < rows.len() ==> (#[trigger] rows[i]).topic != name,
    ensures
        mirrors(rows, TopicLog::empty(name)),
{
    lemma_rows_of_members(rows, name);
    let held = rows_of(rows, name);
    if held.len() > 0 {
        assert(rows.contains(held[0]));
    }
}

/// The table after an acknowledged publish, as three tables joined.
proof fn lemma_with_row_parts(rows: Seq<Record>, row: Record, topic: Seq<char>)
    requires
        ascending(rows),
    ensures
        rows_of(with_row(rows, row), topic) == rows_of(rows.take(slot(rows, row.seq)), topic)
            + rows_of(seq![row], topic) + rows_of(rows.skip(slot(rows, row.seq)), topic),
        rows_of(rows, topic) == rows_of(rows.take(slot(rows, row.seq)), topic) + rows_of(
            rows.skip(slot(rows, row.seq)),
            topic,
        ),
        rows_of(seq![row], topic) == if row.topic == topic {
            seq![row]
        } else {
            Seq::<Record>::empty()
        },
{
    lemma_slot_parts(rows, row.seq);
    let p = slot(rows, row.seq);
    let front = rows.take(p);
    let back = rows.skip(p);
    assert(with_row(rows, row) =~= (front + seq![row]) + back);
    assert(rows =~= front + back);
    lemma_rows_of_joined(front + seq![row], back, topic);
    lemma_rows_of_joined(front, seq![row], topic);
    lemma_rows_of_joined(front, back, topic);
    assert(rows_of(seq![row], topic) =~= if row.topic == topic {
        seq![row]
    } else {
        Seq::<Record>::empty()
    }) by {
        reveal(Seq::filter);
        assert(seq![row].drop_last() =~= Seq::<Record>::empty());
        assert(rows_of(Seq::<Record>::empty(), topic) =~= Seq::<Record>::empty());
    }
}

/// An acknowledged publish keeps the store in step with the topic: the table
/// with the new row mirrors the topic with the new payload. The rows that the
/// store holds of the topic are therefore always numbered `first ..= last`,
/// none missing and none twice.
pub proof fn lemma_publish_keeps_mirror(rows: Seq<Record>, topic: TopicLog, data: Seq<char>)
    requires
        ascending(rows),
        topic.wf(),
        topic.last() < u64::MAX,
        mirrors(rows, topic),
    ensures
        mirrors(
            with_row(rows, Record { topic: topic.name, seq: topic.next() as u64, data }),
            topic.append(data),
        ),
{
    let row = Record { topic: topic.name, seq: topic.next() as u64, data };
    let p = slot(rows, row.seq);
    let held = rows_of(rows, topic.name);
    let back = rows.skip(p);
    lemma_slot_parts(rows, row.seq);
    lemma_with_row_parts(rows, row, topic.name);
    lemma_rows_of_members(rows, topic.name);
    lemma_rows_of_members(back, topic.name);
    // every row behind the slot has a greater number than any event of the topic
    if rows_of(back, topic.name).len() > 0 {
        let late = rows_of(back, topic.name)[0];
        let i = choose|i: int| 0 <= i < back.len() && back[i] == late;
        let j = choose|j: int| 0 <= j < held.len() && held[j] == rows[p + i];
        assert(late.seq > row.seq && late.seq == topic.first + j);
    }
    assert(rows_of(with_row(rows, row), topic.name) =~= held.push(row));
}

/// A publish to one topic leaves the store in step with every other topic.
pub proof fn lemma_publish_spares_others(rows: Seq<Record>, other: TopicLog, row: Record)
    requires
        ascending(rows),
        mirrors(rows, other),
        row.topic != other.name,
    ensures
        mirrors(with_row(rows, row), other),
{
    lemma_with_row_parts(rows, row, other.name);
}

/// What the store answers about a mirrored topic loads back to that topic:
/// its summary and its events are consistent and hydrate to the topic as the
/// core holds it.
pub proof fn lemma_mirror_loads_back(
    rows: Seq<Record>,
    topic: TopicLog,
    summary: StorageTopic,
    events: Seq<StorageItem>,
)
    requires
        topic.wf(),
        topic.entries.len() > 0,
        mirrors(rows, topic),
        summary.name@ == topic.name,
        exists|k: int|
            0 <= k < summaries(rows).len() && #[trigger] summaries(rows)[k] == summary_of(summary),
        items_are(events, rows_of(rows, topic.name)),
    ensures
        consistent(summary, events),
        hydrated(summary, events) == topic,
{
    let held = rows_of(rows, topic.name);
    let k = choose|k: int|
        0 <= k < summaries(rows).len() && #[trigger] summaries(rows)[k] == summary_of(summary);
    lemma_summaries_group(rows);
    lemma_rows_of_members(rows, topic.name);
    let lo = choose|i: int|
        0 <= i < rows.len() && (#[trigger] rows[i]).topic == topic.name && rows[i].seq
            == summary.first;
    let hi = choose|i: int|
        0 <= i < rows.len() && (#[trigger] rows[i]).topic == topic.name && rows[i].seq
            == summary.last;
    // the bounds are numbers of events of the topic
    let a = choose|a: int| 0 <= a < held.len() && held[a] == rows[lo];
    let b = choose|b: int| 0 <= b < held.len() && held[b] == rows[hi];
    assert(summary.first == topic.first + a && summary.last == topic.first + b);
    // and the first and the last event lie within the bounds
    let first = choose|i: int| 0 <= i < rows.len() && rows[i] == held[0];
    let last = choose|i: int| 0 <= i < rows.len() && rows[i] == held[held.len() - 1];
    assert(summary.first <= rows[first].seq && rows[last].seq <= summary.last);
    assert(summary.first == topic.first && summary.last == topic.last());
}

/// Whether a snapshot is what a table answers: the summaries of the table,
/// and for each of them the rows of its topic.
pub open spec fn snapshot_of(
    rows: Seq<Record>,
    topics: Seq<StorageTopic>,
    events: Seq<Seq<StorageItem>>,
) -> bool {
    &&& summaries_of(topics) == summaries(rows)
    &&& events.len() == topics.len()
    &&& forall|i: int|
        0 <= i < topics.len() ==> items_are(#[trigger] events[i], rows_of(rows, topics[i].name@))
}

/// Two answers with the same contents describe the same topic.
proof fn lemma_same_answer(
    held: Seq<Record>,
    topic: StorageTopic,
    events: Seq<StorageItem>,
    topic_again: StorageTopic,
    events_again: Seq<StorageItem>,
)
    requires
        summary_of(topic) == summary_of(topic_again),
        items_are(events, held),
        items_are(events_again, held),
    ensures
        hydrated(topic, events) == hydrated(topic_again, events_again),
        consistent(topic, events) ==> consistent(topic_again, events_again),
{
    if consistent(topic, events) {
        assert forall|i: int| 0 <= i < events_again.len() implies (#[trigger] events_again[i]).seq
            == topic_again.first + i by {
            assert(events[i].seq == held[i].seq);
        }
    }
}

/// Two loads of a store that did not change in between agree: the snapshots
/// that one table answers are loadable or not together, and load to the same
/// registry, with the same `first`, `last` and cached payloads for every
/// topic.
pub proof fn lemma_load_is_repeatable(
    rows: Seq<Record>,
    topics: Seq<StorageTopic>,
    events: Seq<Seq<StorageItem>>,
    topics_again: Seq<StorageTopic>,
    events_again: Seq<Seq<StorageItem>>,
)
    requires
        snapshot_of(rows, topics, events),
        snapshot_of(rows, topics_again, events_again),
    ensures
        loadable(topics, events) == loadable(topics_again, events_again),
        loaded(topics, events) == loaded(topics_again, events_again),
{
    assert(summaries_of(topics).len() == summaries_of(topics_again).len());
    assert forall|i: int| 0 <= i < topics.len() implies summary_of(#[trigger] topics[i])
        == summary_of(topics_again[i]) by {
        assert(summaries_of(topics)[i] == summaries_of(topics_again)[i]);
    }
    assert forall|i: int| 0 <= i < topics.len() implies hydrated(#[trigger] topics[i], events[i])
        == hydrated(topics_again[i], events_again[i]) && (consistent(topics[i], events[i])
        <==> consistent(topics_again[i], events_again[i])) by {
        let held = rows_of(rows, topics[i].name@);
        lemma_same_answer(held, topics[i], events[i], topics_again[i], events_again[i]);
        lemma_same_answer(held, topics_again[i], events_again[i], topics[i], events[i]);
    }
    if loadable(topics, events) {
        assert forall|i: int, j: int| 0 <= i < j < topics.len() implies (
        #[trigger] topics_again[i]).name@ != (#[trigger] topics_again[j]).name@ by {
            assert(summary_of(topics[i]) == summary_of(topics_again[i]));
            assert(summary_of(topics[j]) == summary_of(topics_again[j]));
        }
        assert forall|i: int| 0 <= i < topics.len() implies consistent(
            #[trigger] topics_again[i],
            events_again[i],
        ) by {
            assert(consistent(topics[i], events[i]));
        }
    }
    if loadable(topics_again, events_again) {
        assert forall|i: int, j: int| 0 <= i < j < topics.len() implies (#[trigger] topics[i]).name@
            != (#[trigger] topics[j]).name@ by {
            assert(summary_of(topics[i]) == summary_of(topics_again[i]));
            assert(summary_of(topics[j]) == summary_of(topics_again[j]));
        }
        assert forall|i: int| 0 <= i < topics.len() implies consistent(
            #[trigger] topics[i],
            events[i],
        ) by {
            assert(consistent(topics_again[i], events_again[i]));
        }
    }
}

/// What a store in memory answers is a snapshot of its table.
pub proof fn lemma_memory_answers(
    store: MemoryStore,
    topics: Vec<StorageTopic>,
    events: Vec<Vec<StorageItem>>,
)
    requires
        answered(&store, topics, events),
    ensures
        snapshot_of(store@, topics@, event_lists(events@)),
{
    assert forall|i: int| 0 <= i < topics@.len() implies items_are(
        #[trigger] event_lists(events@)[i],
        rows_of(store@, topics@[i].name@),
    ) by {
        assert(answers_read_all(&store, topics@[i].name@, Ok(events@[i])));
    }
}

/// Two loads of a store in memory that did not change in between yield the
/// same registry: the same topics at the same positions, each with the same
/// `first`, `last` and cached payloads.
pub proof fn lemma_memory_load_is_repeatable(
    store: MemoryStore,
    once: Seq<TopicLog>,
    again: Seq<TopicLog>,
)
    requires
        loads_to(&store, once),
        loads_to(&store, again),
    ensures
        once == again,
{
    let (topics, events) = choose|topics: Vec<StorageTopic>, events: Vec<Vec<StorageItem>>|
        #![trigger answered(&store, topics, events)]
        answered(&store, topics, events) && loadable(topics@, event_lists(events@)) && once
            == loaded(topics@, event_lists(events@));
    let (topics_again, events_again) = choose|
        topics: Vec<StorageTopic>,
        events: Vec<Vec<StorageItem>>,
    |
        #![trigger answered(&store, topics, events)]
        answered(&store, topics, events) && loadable(topics@, event_lists(events@)) && again
            == loaded(topics@, event_lists(events@));
    lemma_memory_answers(store, topics, events);
    lemma_memory_answers(store, topics_again, events_again);
    lemma_load_is_repeatable(
        store@,
        topics@,
        event_lists(events@),
        topics_again@,
        event_lists(events_again@),
    );
}

} // verus!
