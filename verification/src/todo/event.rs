//! The events of the to-do log, their stored form, and their replay.

use vstd::prelude::*;

use crate::agency::Agency;
use crate::message::{decodes, CodecError, Message, Topic};
use crate::storage::Storage;
use crate::todo::{text_of, TodoInput};

verus! {

/// `serde_json::Error`: why a text could not be written or read as JSON.
/// Opaque here.
#[verifier::external_type_specification]
#[verifier::external_body]
pub struct ExJsonError(serde_json::Error);

/// What `serde_json::to_string` returns for the pair of an id and an optional
/// text: the JSON text, or `None` where it fails.
pub uninterp spec fn json_of_entry(id: u64, task: Option<Seq<char>>) -> Option<Seq<char>>;

/// What `serde_json::from_str` returns for a text that is read as the pair
/// of an id and an optional text: the pair, or `None` where it fails.
pub uninterp spec fn entry_of_json(text: Seq<char>) -> Option<(u64, Option<Seq<char>>)>;

/// `serde_json::to_string`, on the pair of an id and an optional text.
/// Claimed: the outcome is a function of the pair.
#[verifier::external_body]
fn json_encode_entry(id: u64, task: &Option<String>) -> (r: Result<String, serde_json::Error>)
    ensures
        match r {
            Ok(text) => json_of_entry(id, text_of(*task)) == Some(text@),
            Err(_) => json_of_entry(id, text_of(*task)) is None,
        },
{
    serde_json::to_string(&(id, task))
}

/// `serde_json::from_str`, read as the pair of an id and an optional text.
/// Claimed: the outcome is a function of the text.
#[verifier::external_body]
fn json_decode_entry(text: &str) -> (r: Result<(u64, Option<String>), serde_json::Error>)
    ensures
        match r {
            Ok(entry) => entry_of_json(text@) == Some((entry.0, text_of(entry.1))),
            Err(_) => entry_of_json(text@) is None,
        },
{
    serde_json::from_str(text)
}

/// `ToString::to_string` of `serde_json::Error`: the error's message.
#[verifier::external_body]
fn json_error_text(error: &serde_json::Error) -> (text: String) {
    error.to_string()
}

/// One event of the to-do log: the task of this id is set to the text, or
/// removed where there is none. It is stored as the JSON of the pair.
#[derive(Debug, Clone, PartialEq, Eq)]
pub struct TodoEvent {
    pub id: u64,
    pub task: Option<String>,
}

impl Message for TodoEvent {
    fn encode(&self) -> (r: Result<String, CodecError>)
        ensures
            match r {
                Ok(text) => json_of_entry(self.id, text_of(self.task)) == Some(text@),
                Err(_) => json_of_entry(self.id, text_of(self.task)) is None,
            },
    {
        match json_encode_entry(self.id, &self.task) {
            Ok(text) => Ok(text),
            Err(e) => Err(CodecError { message: json_error_text(&e) }),
        }
    }

    fn decode(text: &String) -> (r: Result<TodoEvent, CodecError>)
        ensures
            match r {
                Ok(event) => entry_of_json(text@) == Some((event.id, text_of(event.task))),
                Err(_) => entry_of_json(text@) is None,
            },
    {
        match json_decode_entry(text.as_str()) {
            Ok(entry) => Ok(TodoEvent { id: entry.0, task: entry.1 }),
            Err(e) => Err(CodecError { message: json_error_text(&e) }),
        }
    }
}

/// Whether `commands` replay these stored texts: one `Load` per text, in
/// order, each with the entry that its text decodes to.
pub open spec fn replayed(texts: Seq<Seq<char>>, commands: Seq<TodoInput>) -> bool {
    &&& commands.len() == texts.len()
    &&& forall|i: int|
        0 <= i < commands.len() ==> match #[trigger] commands[i] {
            TodoInput::Load(id, task) => entry_of_json(texts[i]) == Some((id, text_of(task))),
            _ => false,
        }
}

/// Turns the replay of a to-do topic into the commands that rebuild the
/// list, or returns the error of the first stored text that does not decode.
pub fn commands(items: Vec<Result<TodoEvent, CodecError>>) -> (r: Result<
    Vec<TodoInput>,
    CodecError,
>)
    ensures
        match r {
            Ok(commands) => commands@.len() == items@.len() && forall|i: int|
                0 <= i < items@.len() ==> match (items@[i], #[trigger] commands@[i]) {
                    (Ok(event), TodoInput::Load(id, task)) => id == event.id && task == event.task,
                    _ => false,
                },
            Err(e) => exists|i: int|
                0 <= i < items@.len() && items@[i] == Err::<TodoEvent, CodecError>(e) && forall|
                    j: int,
                | 0 <= j < i ==> (#[trigger] items@[j]) is Ok,
        },
{
    let mut commands: Vec<TodoInput> = Vec::new();
    let ghost all = items@;
    for item in each: items
        invariant
            each.seq() == all,
            commands@.len() == each.index(),
            forall|i: int|
                0 <= i < commands@.len() ==> match (all[i], #[trigger] commands@[i]) {
                    (Ok(event), TodoInput::Load(id, task)) => id == event.id && task == event.task,
                    _ => false,
                },
    {
        match item {
            Ok(event) => {
                commands.push(TodoInput::Load(event.id, event.task));
            },
            Err(e) => {
                assert forall|j: int| 0 <= j < each.index() implies (#[trigger] all[j]) is Ok by {
                    assert(commands@[j] is Load);
                }
                return Err(e);
            },
        }
    }
    Ok(commands)
}

/// Replays a to-do topic of a registry into the commands that rebuild the
/// list. The first stored text that does not decode ends the replay with its
/// error; a position that names no topic replays nothing.
pub fn load<S: Storage>(agency: &Agency<S>, topic: &Topic<TodoEvent>) -> (r: Result<
    Vec<TodoInput>,
    CodecError,
>)
    requires
        agency.wf(),
    ensures
        topic.index() >= agency@.len() ==> (r matches Ok(commands) && commands@.len() == 0),
        topic.index() < agency@.len() ==> match r {
            Ok(commands) => replayed(agency@[topic.index() as int].entries, commands@),
            Err(_) => exists|i: int|
                0 <= i < agency@[topic.index() as int].entries.len() && entry_of_json(
                    #[trigger] agency@[topic.index() as int].entries[i],
                ) is None,
        },
{
    let items = topic.subscribe().rest(agency);
    let ghost replay = items@;
    let r = commands(items);
    proof {
        if topic.index() < agency@.len() && r is Err {
            // the item that failed is the decoding of the text at its place
            let texts = agency@[topic.index() as int].entries;
            let i = choose|i: int| 0 <= i < replay.len() && replay[i] is Err;
            assert(decodes(texts[i], replay[i]));
        }
    }
    r
}

} // verus!
