use omg_core::todo::{command, commands, decimal_text, load, parse_id};
use omg_core::{
    Agency, CodecError, MemoryStore, Message, State, Storage, StorageItem, Todo, TodoEvent,
    TodoInput, TodoOutput, Topic,
};

fn line(text: &str) -> TodoOutput {
    TodoOutput::PrintLine(text.to_string())
}

fn set(id: u64, task: &str) -> TodoEvent {
    TodoEvent { id, task: Some(task.to_string()) }
}

#[test]
fn numbers_are_written_in_decimal() {
    assert_eq!(decimal_text(0), "0");
    assert_eq!(decimal_text(7), "7");
    assert_eq!(decimal_text(10), "10");
    assert_eq!(decimal_text(1905), "1905");
    assert_eq!(decimal_text(1234567890), "1234567890");
    assert_eq!(decimal_text(u64::MAX), "18446744073709551615");
}

#[test]
fn help_prints_the_usage() {
    let mut todo = Todo::new();
    assert_eq!(
        todo.handle(TodoInput::Help),
        vec![
            line("Help for Sync demo todo app"),
            line("sync_demo list"),
            line("Will list all the active todo items."),
            line("sync_demo add [task]"),
            line("Adds task to the todo lists."),
            line("sync_demo remove [id]"),
            line("Removes/completes the task with id: id."),
        ]
    );
}

#[test]
fn load_folds_events_into_the_list() {
    let mut todo = Todo::new();
    assert_eq!(todo.handle(TodoInput::Load(2, Some("b".to_string()))), Vec::new());
    assert_eq!(todo.handle(TodoInput::Load(1, Some("a".to_string()))), Vec::new());
    assert_eq!(todo.handle(TodoInput::Load(2, Some("B".to_string()))), Vec::new());
    assert_eq!(todo.len(), 2);
    assert_eq!(todo.task(1), Some(&"a".to_string()));
    assert_eq!(todo.task(2), Some(&"B".to_string()));
    assert_eq!(todo.handle(TodoInput::Load(1, None)), Vec::new());
    assert_eq!(todo.handle(TodoInput::Load(5, None)), Vec::new());
    assert_eq!(todo.len(), 1);
    assert_eq!(todo.task(1), None);
    assert_eq!(todo.entries(), vec![(2, "B".to_string())]);
}

#[test]
fn list_prints_the_tasks_by_ascending_id() {
    let mut todo = Todo::new();
    assert_eq!(todo.handle(TodoInput::List), Vec::new());
    todo.handle(TodoInput::Load(12, Some("twelve".to_string())));
    todo.handle(TodoInput::Load(3, Some("three".to_string())));
    todo.handle(TodoInput::Load(100, Some("hundred".to_string())));
    assert_eq!(
        todo.handle(TodoInput::List),
        vec![line("3: three"), line("12: twelve"), line("100: hundred")]
    );
    assert_eq!(todo.len(), 3);
}

#[test]
fn add_takes_the_id_after_the_highest() {
    let mut todo = Todo::new();
    assert_eq!(
        todo.handle(TodoInput::Add("first".to_string())),
        vec![
            TodoOutput::Publish(1, Some("first".to_string())),
            line("Added first with id 1"),
        ]
    );
    // adding only asks for the event; the list changes when the event is replayed
    assert_eq!(todo.len(), 0);
    todo.handle(TodoInput::Load(4, Some("four".to_string())));
    todo.handle(TodoInput::Load(2, Some("two".to_string())));
    assert_eq!(
        todo.handle(TodoInput::Add("next".to_string())),
        vec![TodoOutput::Publish(5, Some("next".to_string())), line("Added next with id 5")]
    );
    assert_eq!(todo.len(), 2);
}

#[test]
fn add_refuses_when_no_id_is_left() {
    let mut todo = Todo::new();
    todo.handle(TodoInput::Load(u64::MAX, Some("last".to_string())));
    assert_eq!(todo.handle(TodoInput::Add("more".to_string())), vec![line("No id is left for more")]);
    assert_eq!(todo.len(), 1);
}

#[test]
fn remove_asks_for_the_tombstone() {
    let mut todo = Todo::new();
    todo.handle(TodoInput::Load(3, Some("three".to_string())));
    assert_eq!(
        todo.handle(TodoInput::Remove(3)),
        vec![TodoOutput::Publish(3, None), line("Removed task with id 3")]
    );
    assert_eq!(todo.len(), 1);
}

#[test]
fn events_are_stored_as_json_pairs() {
    assert_eq!(set(1, "buy milk").encode(), Ok("[1,\"buy milk\"]".to_string()));
    assert_eq!(TodoEvent { id: 1, task: None }.encode(), Ok("[1,null]".to_string()));
    assert_eq!(set(2, "say \"hi\"").encode(), Ok("[2,\"say \\\"hi\\\"\"]".to_string()));
    assert_eq!(TodoEvent::decode(&"[1,\"buy milk\"]".to_string()), Ok(set(1, "buy milk")));
    assert_eq!(TodoEvent::decode(&" [ 7 , null ] ".to_string()), Ok(TodoEvent { id: 7, task: None }));
    let max = set(u64::MAX, "");
    assert_eq!(TodoEvent::decode(&max.encode().unwrap()), Ok(max));
}

#[test]
fn malformed_events_are_decode_errors() {
    for text in ["", "[1]", "[-1,null]", "{\"id\":1}", "[1,2]", "[1,null,3]", "[18446744073709551616,null]"] {
        let r = TodoEvent::decode(&text.to_string());
        assert!(r.is_err(), "{text} was decoded");
        assert!(!r.unwrap_err().message.is_empty());
    }
}

#[test]
fn commands_stop_at_the_first_decode_error() {
    let good = vec![Ok(set(1, "a")), Ok(TodoEvent { id: 1, task: None })];
    assert_eq!(
        commands(good),
        Ok(vec![TodoInput::Load(1, Some("a".to_string())), TodoInput::Load(1, None)])
    );
    let first = CodecError { message: "first".to_string() };
    let second = CodecError { message: "second".to_string() };
    let bad = vec![Ok(set(1, "a")), Err(first.clone()), Ok(set(2, "b")), Err(second)];
    assert_eq!(commands(bad), Err(first));
    assert_eq!(commands(Vec::new()), Ok(Vec::new()));
}

#[test]
fn todo_log_scenario() {
    let mut agency = Agency::load(MemoryStore::new()).unwrap();
    let topic: Topic<TodoEvent> = Topic::new(agency.create_topic("todo"));

    assert_eq!(topic.publish(&mut agency, &set(1, "buy milk")), Ok(1));
    assert_eq!(topic.publish(&mut agency, &set(2, "walk dog")), Ok(2));
    assert_eq!(topic.subscribe().rest(&agency), vec![Ok(set(1, "buy milk")), Ok(set(2, "walk dog"))]);

    assert_eq!(topic.publish(&mut agency, &TodoEvent { id: 1, task: None }), Ok(3));

    let mut todo = Todo::new();
    for command in load(&agency, &topic).unwrap() {
        assert_eq!(todo.handle(command), Vec::new());
    }
    assert_eq!(todo.entries(), vec![(2, "walk dog".to_string())]);
    assert_eq!(todo.handle(TodoInput::List), vec![line("2: walk dog")]);

    // the store holds the three events under the sequence numbers 1, 2, 3
    let mut store = MemoryStore::new();
    for event in agency.topic(0).unwrap().replay() {
        store.push("todo", event.seq, &event.data).unwrap();
    }
    assert_eq!(
        store.read_all("todo"),
        Ok(vec![
            StorageItem { seq: 1, data: "[1,\"buy milk\"]".to_string() },
            StorageItem { seq: 2, data: "[2,\"walk dog\"]".to_string() },
            StorageItem { seq: 3, data: "[1,null]".to_string() },
        ])
    );
    assert_eq!(agency.storage().len(), 3);
}

#[test]
fn load_reports_a_text_that_is_no_event() {
    let mut agency = Agency::load(MemoryStore::new()).unwrap();
    let index = agency.create_topic("todo");
    let topic: Topic<TodoEvent> = Topic::new(index);
    topic.publish(&mut agency, &set(1, "a")).unwrap();
    agency.publish(index, "not json".to_string()).unwrap();
    assert!(load(&agency, &topic).is_err());
    let nowhere: Topic<TodoEvent> = Topic::new(9);
    assert_eq!(load(&agency, &nowhere), Ok(Vec::new()));
}

#[test]
fn todo_runs_as_an_agent() {
    let (mailbox, mut agent) = Todo::new().agent();
    mailbox.try_write(TodoInput::Load(1, Some("a".to_string()))).unwrap();
    mailbox.try_write(TodoInput::Add("b".to_string())).unwrap();
    mailbox.try_write(TodoInput::List).unwrap();
    let (mut reader, writer) = mailbox.split();
    drop(writer);
    while agent.step() {}
    assert_eq!(reader.try_read(), Ok(TodoOutput::Publish(2, Some("b".to_string()))));
    assert_eq!(reader.try_read(), Ok(line("Added b with id 2")));
    assert_eq!(reader.try_read(), Ok(line("1: a")));
    assert!(reader.try_read().is_err());
    assert_eq!(agent.state().len(), 1);
}

#[test]
fn ids_are_read_as_the_standard_library_reads_them() {
    let texts = [
        "0", "7", "42", "007", "+5", "+0", "", "+", "-1", "-0", "1 ", " 1", "1a", "a", "++1",
        "1+", "12345678901234567890", "18446744073709551615", "18446744073709551616",
        "99999999999999999999", "000000000000000000000000000018446744073709551615", "\u{661}",
        "1_000", "0x10",
    ];
    for text in texts {
        assert_eq!(parse_id(text), text.parse::<u64>().ok(), "{text}");
    }
    assert_eq!(parse_id("18446744073709551615"), Some(u64::MAX));
    assert_eq!(parse_id("+12"), Some(12));
    assert_eq!(parse_id("18446744073709551616"), None);
}

#[test]
fn written_ids_read_back() {
    for id in [0, 1, 9, 10, 11, 99, 100, 1905, u64::MAX - 1, u64::MAX] {
        assert_eq!(parse_id(&decimal_text(id)), Some(id));
    }
}

fn args(words: &[&str]) -> Vec<String> {
    words.iter().map(|word| word.to_string()).collect()
}

#[test]
fn command_line_is_understood() {
    assert_eq!(command(&args(&["todo", "list"])), TodoInput::List);
    assert_eq!(command(&args(&["todo", "add", "buy milk"])), TodoInput::Add("buy milk".to_string()));
    assert_eq!(command(&args(&["todo", "remove", "3"])), TodoInput::Remove(3));
    assert_eq!(command(&args(&["todo", "remove", "+3"])), TodoInput::Remove(3));
}

#[test]
fn anything_else_asks_for_help() {
    assert_eq!(command(&args(&[])), TodoInput::Help);
    assert_eq!(command(&args(&["todo"])), TodoInput::Help);
    assert_eq!(command(&args(&["todo", "help"])), TodoInput::Help);
    assert_eq!(command(&args(&["todo", "add"])), TodoInput::Help);
    assert_eq!(command(&args(&["todo", "list", "all"])), TodoInput::Help);
    assert_eq!(command(&args(&["todo", "remove", "three"])), TodoInput::Help);
    assert_eq!(command(&args(&["todo", "remove", "-3"])), TodoInput::Help);
    assert_eq!(command(&args(&["todo", "remove", "3", "4"])), TodoInput::Help);
    assert_eq!(command(&args(&["todo", "Add", "x"])), TodoInput::Help);
    assert_eq!(command(&args(&["list", "list"])), TodoInput::List);
}

#[test]
fn events_of_any_text_read_back() {
    let texts = [
        "",
        "plain",
        "with \"quotes\" and \\backslashes\\",
        "line\nbreak\tand tab\r",
        "caf\u{e9} \u{4e2d}\u{6587} \u{1f600}",
        "\u{0}\u{1}\u{1f}",
        "[1,null]",
        "null",
    ];
    for (n, text) in texts.iter().enumerate() {
        let event = set(n as u64 * 1_000_003, text);
        let stored = event.encode().unwrap();
        assert_eq!(TodoEvent::decode(&stored), Ok(event));
    }
    let tombstone = TodoEvent { id: 42, task: None };
    assert_eq!(TodoEvent::decode(&tombstone.encode().unwrap()), Ok(tombstone));
}

#[test]
fn lines_keep_the_text_of_any_task() {
    let mut todo = Todo::new();
    let task = "caf\u{e9}: \u{1f600} \"x\"";
    todo.handle(TodoInput::Load(7, Some(task.to_string())));
    assert_eq!(todo.handle(TodoInput::List), vec![line(&format!("7: {task}"))]);
    assert_eq!(
        todo.handle(TodoInput::Add(task.to_string())),
        vec![
            TodoOutput::Publish(8, Some(task.to_string())),
            line(&format!("Added {task} with id 8")),
        ]
    );
    assert_eq!(
        todo.handle(TodoInput::Remove(u64::MAX)),
        vec![
            TodoOutput::Publish(u64::MAX, None),
            line("Removed task with id 18446744073709551615"),
        ]
    );
}

#[test]
fn the_list_is_the_fold_of_its_log() {
    let mut agency = Agency::load(MemoryStore::new()).unwrap();
    let topic: Topic<TodoEvent> = Topic::new(agency.create_topic("todo"));
    let mut expected = std::collections::BTreeMap::new();
    for n in 0..50u64 {
        let id = (n * 7) % 11;
        let event = if n % 3 == 2 {
            expected.remove(&id);
            TodoEvent { id, task: None }
        } else {
            expected.insert(id, format!("task {n}"));
            set(id, &format!("task {n}"))
        };
        assert_eq!(topic.publish(&mut agency, &event), Ok(n + 1));
    }
    let mut todo = Todo::new();
    for command in load(&agency, &topic).unwrap() {
        todo.handle(command);
    }
    let entries: Vec<(u64, String)> = expected.into_iter().collect();
    assert_eq!(todo.entries(), entries);
    assert_eq!(todo.len(), entries.len());
}
