use omg_core::{
    storable_sequence, stored_sequence, LoadError, PublishError, Storage, StorageError,
    StorageErrorKind, StorageItem, StorageTopic, TopicCore,
};

/// A store that records what it is given and refuses when told to.
struct Recorder {
    rows: Vec<(String, u64, String)>,
    refuse: bool,
    calls: usize,
}

impl Recorder {
    fn new() -> Recorder {
        Recorder { rows: Vec::new(), refuse: false, calls: 0 }
    }
}

impl Storage for Recorder {
    fn topics(&self) -> Result<Vec<StorageTopic>, StorageError> {
        Ok(Vec::new())
    }

    fn push(&mut self, topic: &str, seq: u64, data: &str) -> Result<(), StorageError> {
        self.calls += 1;
        if self.refuse {
            return Err(StorageError::failed("disk full".to_string()));
        }
        self.rows.push((topic.to_string(), seq, data.to_string()));
        Ok(())
    }

    fn read_all(&self, _topic: &str) -> Result<Vec<StorageItem>, StorageError> {
        Ok(Vec::new())
    }
}

fn item(seq: u64, data: &str) -> StorageItem {
    StorageItem { seq, data: data.to_string() }
}

fn summary(name: &str, first: u64, last: u64) -> StorageTopic {
    StorageTopic { name: name.to_string(), first, last }
}

#[test]
fn empty_topic_starts_at_one() {
    let core = TopicCore::empty("todo".to_string());
    assert_eq!(core.name(), "todo");
    assert_eq!(core.first(), 1);
    assert_eq!(core.last(), 0);
    assert_eq!(core.len(), 0);
    assert_eq!(core.get(1), None);
    assert_eq!(core.replay(), Vec::new());
}

#[test]
fn publish_assigns_consecutive_sequence_numbers() {
    let mut store = Recorder::new();
    let mut core = TopicCore::empty("todo".to_string());
    assert_eq!(core.publish(&mut store, "buy milk".to_string()), Ok(1));
    assert_eq!(core.publish(&mut store, "walk dog".to_string()), Ok(2));
    assert_eq!(core.last(), 2);
    assert_eq!(core.len(), 2);
    assert_eq!(core.get(1), Some(&"buy milk".to_string()));
    assert_eq!(core.get(2), Some(&"walk dog".to_string()));
    assert_eq!(core.get(0), None);
    assert_eq!(core.get(3), None);
    assert_eq!(
        store.rows,
        vec![
            ("todo".to_string(), 1, "buy milk".to_string()),
            ("todo".to_string(), 2, "walk dog".to_string()),
        ]
    );
}

#[test]
fn many_publishes_leave_no_gap_and_no_duplicate() {
    let mut store = Recorder::new();
    let mut core = TopicCore::empty("t".to_string());
    let mut successes = 0u64;
    for round in 0..40u64 {
        store.refuse = round % 3 == 1;
        if let Ok(seq) = core.publish(&mut store, format!("p{round}")) {
            successes += 1;
            assert_eq!(seq, successes);
        }
    }
    assert_eq!(core.last(), successes);
    let stored: Vec<u64> = store.rows.iter().map(|row| row.1).collect();
    let expected: Vec<u64> = (1..=successes).collect();
    assert_eq!(stored, expected);
    let replayed: Vec<u64> = core.replay().iter().map(|event| event.seq).collect();
    assert_eq!(replayed, expected);
}

#[test]
fn refused_write_leaves_the_topic_untouched() {
    let mut store = Recorder::new();
    let mut core = TopicCore::empty("todo".to_string());
    assert_eq!(core.publish(&mut store, "a".to_string()), Ok(1));
    store.refuse = true;
    let r = core.publish(&mut store, "b".to_string());
    assert_eq!(r, Err(PublishError::Storage(StorageError::failed("disk full".to_string()))));
    assert_eq!(core.last(), 1);
    assert_eq!(core.get(2), None);
    store.refuse = false;
    assert_eq!(core.publish(&mut store, "c".to_string()), Ok(2));
    assert_eq!(core.replay(), vec![item(1, "a"), item(2, "c")]);
}

#[test]
fn commit_follows_the_reply() {
    let mut core = TopicCore::empty("t".to_string());
    assert_eq!(core.commit("x".to_string(), Ok(())), Ok(1));
    let refused = core.commit("y".to_string(), Err(StorageError::unavailable()));
    assert_eq!(refused, Err(PublishError::Storage(StorageError::unavailable())));
    assert_eq!(core.last(), 1);
    assert_eq!(core.commit("z".to_string(), Ok(())), Ok(2));
    assert_eq!(core.replay(), vec![item(1, "x"), item(2, "z")]);
}

#[test]
fn hydrates_from_a_consistent_snapshot() {
    let events = vec![item(3, "c"), item(4, "d"), item(5, "e")];
    let core = TopicCore::new(&summary("log", 3, 5), &events).unwrap();
    assert_eq!(core.name(), "log");
    assert_eq!(core.first(), 3);
    assert_eq!(core.last(), 5);
    assert_eq!(core.get(2), None);
    assert_eq!(core.get(3), Some(&"c".to_string()));
    assert_eq!(core.get(5), Some(&"e".to_string()));
    assert_eq!(core.get(6), None);
    assert_eq!(core.replay(), events);
}

#[test]
fn hydrated_topic_continues_after_last() {
    let mut store = Recorder::new();
    let mut core = TopicCore::new(&summary("log", 3, 4), &vec![item(3, "c"), item(4, "d")]).unwrap();
    assert_eq!(core.publish(&mut store, "e".to_string()), Ok(5));
    assert_eq!(store.rows, vec![("log".to_string(), 5, "e".to_string())]);
}

#[test]
fn rejects_an_inconsistent_snapshot() {
    let gap = vec![item(1, "a"), item(3, "c")];
    assert!(matches!(TopicCore::new(&summary("t", 1, 3), &gap), Err(LoadError::Inconsistent)));
    let short = vec![item(1, "a")];
    assert!(matches!(TopicCore::new(&summary("t", 1, 2), &short), Err(LoadError::Inconsistent)));
    let shifted = vec![item(2, "a"), item(3, "b")];
    assert!(matches!(TopicCore::new(&summary("t", 1, 2), &shifted), Err(LoadError::Inconsistent)));
    let twice = vec![item(1, "a"), item(1, "b")];
    assert!(matches!(TopicCore::new(&summary("t", 1, 2), &twice), Err(LoadError::Inconsistent)));
    let zero = vec![item(0, "a")];
    assert!(matches!(TopicCore::new(&summary("t", 0, 0), &zero), Err(LoadError::Inconsistent)));
    assert!(matches!(TopicCore::new(&summary("t", 5, 2), &Vec::new()), Err(LoadError::Inconsistent)));
    assert!(TopicCore::new(&summary("t", 1, 0), &Vec::new()).is_ok());
    assert!(TopicCore::new(&summary("t", 7, 6), &Vec::new()).is_ok());
}

#[test]
fn exhausted_topic_does_not_ask_the_store() {
    let mut store = Recorder::new();
    let last = vec![item(u64::MAX, "end")];
    let mut core = TopicCore::new(&summary("t", u64::MAX, u64::MAX), &last).unwrap();
    assert_eq!(core.publish(&mut store, "more".to_string()), Err(PublishError::Exhausted));
    assert_eq!(store.calls, 0);
    assert_eq!(core.commit("more".to_string(), Ok(())), Err(PublishError::Exhausted));
    assert_eq!(core.last(), u64::MAX);
    assert_eq!(core.replay(), last);
    assert_eq!(core.get(u64::MAX), Some(&"end".to_string()));
}

#[test]
fn storage_errors_tell_their_kind() {
    let gone = StorageError::unavailable();
    assert_eq!(gone.kind, StorageErrorKind::Unavailable);
    assert_eq!(gone.message, "storage backend unavailable");
    assert!(gone.is_unavailable());
    let failed = StorageError::failed("boom".to_string());
    assert_eq!(failed.kind, StorageErrorKind::Failed);
    assert_eq!(failed.message, "boom");
    assert!(!failed.is_unavailable());
}

#[test]
fn sequence_numbers_cross_to_signed_stores_within_range() {
    assert_eq!(stored_sequence(0), Ok(0));
    assert_eq!(stored_sequence(17), Ok(17));
    assert_eq!(stored_sequence(i64::MAX), Ok(9223372036854775807));
    let negative = stored_sequence(-1).unwrap_err();
    assert_eq!(negative.kind, StorageErrorKind::Failed);
    assert_eq!(negative.message, "the store holds a negative sequence number");
    assert!(stored_sequence(i64::MIN).is_err());

    assert_eq!(storable_sequence(0), Ok(0));
    assert_eq!(storable_sequence(9223372036854775807), Ok(i64::MAX));
    let large = storable_sequence(9223372036854775808).unwrap_err();
    assert_eq!(large.kind, StorageErrorKind::Failed);
    assert_eq!(large.message, "the sequence number is too large to store");
    assert!(storable_sequence(u64::MAX).is_err());
    for n in [0u64, 1, 2, 1 << 40, (1 << 63) - 1] {
        assert_eq!(stored_sequence(storable_sequence(n).unwrap()), Ok(n));
    }
}
