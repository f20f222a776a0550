use omg_core::{
    Agency, CodecError, MemoryStore, Message, PublishError, Storage, StorageError,
    StorageErrorKind, Topic,
};

/// A number that is stored in decimal and refuses to store negative values.
#[derive(Debug, Clone, PartialEq, Eq)]
struct Count(i64);

impl Message for Count {
    fn encode(&self) -> Result<String, CodecError> {
        if self.0 < 0 {
            return Err(CodecError { message: "negative".to_string() });
        }
        Ok(self.0.to_string())
    }

    fn decode(text: &String) -> Result<Count, CodecError> {
        match text.parse::<i64>() {
            Ok(n) => Ok(Count(n)),
            Err(_) => Err(CodecError { message: format!("not a number: {text}") }),
        }
    }
}

#[test]
fn subscribe_yields_what_was_published_in_order() {
    let mut agency = Agency::load(MemoryStore::new()).unwrap();
    let topic: Topic<Count> = Topic::new(agency.create_topic("counts"));
    assert_eq!(topic.position(), 0);
    for n in 0..10 {
        assert_eq!(topic.publish(&mut agency, &Count(n * n)), Ok(n as u64 + 1));
    }
    let expected: Vec<Result<Count, CodecError>> = (0..10).map(|n| Ok(Count(n * n))).collect();
    assert_eq!(topic.subscribe().rest(&agency), expected);
    // a replay can be started again from the first event
    assert_eq!(topic.subscribe().rest(&agency), expected);
}

#[test]
fn a_value_that_does_not_encode_is_not_published() {
    let mut agency = Agency::load(MemoryStore::new()).unwrap();
    let topic: Topic<Count> = Topic::new(agency.create_topic("counts"));
    assert_eq!(topic.publish(&mut agency, &Count(1)), Ok(1));
    assert_eq!(
        topic.publish(&mut agency, &Count(-1)),
        Err(PublishError::Encode(CodecError { message: "negative".to_string() }))
    );
    assert_eq!(agency.topic(0).unwrap().last(), 1);
    assert_eq!(agency.storage().len(), 1);
    assert_eq!(topic.publish(&mut agency, &Count(2)), Ok(2));
    assert_eq!(topic.subscribe().rest(&agency), vec![Ok(Count(1)), Ok(Count(2))]);
}

#[test]
fn a_failed_write_is_absent_from_every_later_replay() {
    let mut agency = Agency::load(MemoryStore::with_limit(2)).unwrap();
    let topic: Topic<Count> = Topic::new(agency.create_topic("counts"));
    assert_eq!(topic.publish(&mut agency, &Count(1)), Ok(1));
    assert_eq!(topic.publish(&mut agency, &Count(2)), Ok(2));
    let refused = topic.publish(&mut agency, &Count(3));
    assert!(matches!(
        refused,
        Err(PublishError::Storage(StorageError { kind: StorageErrorKind::Failed, .. }))
    ));
    assert_eq!(agency.topic(0).unwrap().last(), 2);
    assert_eq!(topic.subscribe().rest(&agency), vec![Ok(Count(1)), Ok(Count(2))]);
}

#[test]
fn a_text_that_does_not_decode_is_reported_in_its_place() {
    let mut agency = Agency::load(MemoryStore::new()).unwrap();
    let index = agency.create_topic("counts");
    agency.publish(index, "7".to_string()).unwrap();
    agency.publish(index, "seven".to_string()).unwrap();
    agency.publish(index, "9".to_string()).unwrap();
    let topic: Topic<Count> = Topic::new(index);
    assert_eq!(
        topic.subscribe().rest(&agency),
        vec![
            Ok(Count(7)),
            Err(CodecError { message: "not a number: seven".to_string() }),
            Ok(Count(9)),
        ]
    );
}

#[test]
fn a_view_of_no_topic_publishes_and_replays_nothing() {
    let mut agency = Agency::load(MemoryStore::new()).unwrap();
    let nowhere: Topic<Count> = Topic::new(3);
    assert_eq!(nowhere.publish(&mut agency, &Count(1)), Err(PublishError::UnknownTopic));
    assert_eq!(nowhere.subscribe().rest(&agency), Vec::new());
    assert_eq!(agency.storage().len(), 0);
}

#[test]
fn two_views_of_one_topic_share_its_log() {
    let mut agency = Agency::load(MemoryStore::new()).unwrap();
    let one: Topic<Count> = Topic::new(agency.create_topic("counts"));
    let other: Topic<Count> = Topic::new(agency.create_topic("counts"));
    assert_eq!(one.publish(&mut agency, &Count(1)), Ok(1));
    assert_eq!(other.publish(&mut agency, &Count(2)), Ok(2));
    assert_eq!(one.subscribe().rest(&agency), vec![Ok(Count(1)), Ok(Count(2))]);
    assert_eq!(other.subscribe().rest(&agency), one.subscribe().rest(&agency));
}

#[test]
fn a_replay_reads_one_event_at_a_time() {
    let mut agency = Agency::load(MemoryStore::new()).unwrap();
    let topic: Topic<Count> = Topic::new(agency.create_topic("counts"));
    topic.publish(&mut agency, &Count(10)).unwrap();
    topic.publish(&mut agency, &Count(20)).unwrap();
    let mut replay = topic.subscribe();
    assert_eq!(replay.yielded(), 0);
    assert_eq!(replay.next(&agency), Some(Ok(Count(10))));
    assert_eq!(replay.yielded(), 1);
    assert_eq!(replay.next(&agency), Some(Ok(Count(20))));
    assert_eq!(replay.next(&agency), None);
    assert_eq!(replay.next(&agency), None);
    assert_eq!(replay.yielded(), 2);
}

#[test]
fn a_replay_goes_on_when_more_was_published() {
    let mut agency = Agency::load(MemoryStore::new()).unwrap();
    let topic: Topic<Count> = Topic::new(agency.create_topic("counts"));
    let mut replay = topic.subscribe();
    assert_eq!(replay.next(&agency), None);
    topic.publish(&mut agency, &Count(1)).unwrap();
    topic.publish(&mut agency, &Count(2)).unwrap();
    assert_eq!(replay.next(&agency), Some(Ok(Count(1))));
    topic.publish(&mut agency, &Count(3)).unwrap();
    assert_eq!(replay.rest(&agency), vec![Ok(Count(2)), Ok(Count(3))]);
    assert_eq!(replay.rest(&agency), Vec::new());
    assert_eq!(replay.yielded(), 3);
    topic.publish(&mut agency, &Count(4)).unwrap();
    assert_eq!(replay.rest(&agency), vec![Ok(Count(4))]);
    // a new subscription starts over
    assert_eq!(topic.subscribe().rest(&agency).len(), 4);
}

#[test]
fn a_replay_of_a_hydrated_topic_starts_at_its_first_event() {
    let mut store = MemoryStore::new();
    store.push("counts", 5, "50").unwrap();
    store.push("counts", 6, "60").unwrap();
    let agency = Agency::load(store).unwrap();
    let topic: Topic<Count> = Topic::new(agency.find("counts").unwrap());
    let mut replay = topic.subscribe();
    assert_eq!(replay.next(&agency), Some(Ok(Count(50))));
    assert_eq!(replay.rest(&agency), vec![Ok(Count(60))]);
}
