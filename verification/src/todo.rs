//! A to-do list kept as an event log: the state that folds the events, the
//! commands it answers, and the lines it prints.

use std::collections::BTreeMap;
use vstd::prelude::*;
use vstd::std_specs::btree::increasing_seq;
use vstd::std_specs::cmp::OrdSpec;
use vstd::std_specs::iter::IteratorSpec;
use vstd::string::StringExecFns;

use crate::agent::State;

pub mod command;
pub mod event;
pub mod text;

pub use command::command;
pub use event::{commands, load, TodoEvent};
pub use text::{decimal_text, parse_id};

use text::decimal;

verus! {

/// A command to the list.
#[derive(Debug, Clone, PartialEq, Eq)]
pub enum TodoInput {
    /// Asks for the usage lines.
    Help,
    /// Asks for the open tasks.
    List,
    /// Asks to add a task with this text.
    Add(String),
    /// Asks to remove the task with this id.
    Remove(u64),
    /// Replays one event of the log: the task of this id was set to the
    /// text, or removed where there is none.
    Load(u64, Option<String>),
}

/// What the list answers.
#[derive(Debug, Clone, PartialEq, Eq)]
pub enum TodoOutput {
    /// A line for the user.
    PrintLine(String),
    /// An event for the log: the task of this id is set to the text, or
    /// removed where there is none.
    Publish(u64, Option<String>),
}

/// An answer of the list, as a mathematical value.
pub enum Emitted {
    Line(Seq<char>),
    Event(u64, Option<Seq<char>>),
}

/// The text of an optional string.
pub open spec fn text_of(text: Option<String>) -> Option<Seq<char>> {
    match text {
        Some(text) => Some(text@),
        None => None,
    }
}

impl View for TodoOutput {
    type V = Emitted;

    open spec fn view(&self) -> Emitted {
        match *self {
            TodoOutput::PrintLine(line) => Emitted::Line(line@),
            TodoOutput::Publish(id, task) => Emitted::Event(id, text_of(task)),
        }
    }
}

/// A run of answers, as mathematical values.
pub open spec fn emitted(outputs: Seq<TodoOutput>) -> Seq<Emitted> {
    Seq::new(outputs.len(), |i: int| outputs[i]@)
}

/// The usage lines.
pub open spec fn help_lines() -> Seq<Emitted> {
    seq![
        Emitted::Line("Help for Sync demo todo app"@),
        Emitted::Line("sync_demo list"@),
        Emitted::Line("Will list all the active todo items."@),
        Emitted::Line("sync_demo add [task]"@),
        Emitted::Line("Adds task to the todo lists."@),
        Emitted::Line("sync_demo remove [id]"@),
        Emitted::Line("Removes/completes the task with id: id."@),
    ]
}

/// The line that lists one task.
pub open spec fn task_line(id: u64, task: Seq<char>) -> Seq<char> {
    decimal(id as nat) + ": "@ + task
}

/// The line that confirms an added task.
pub open spec fn added_line(task: Seq<char>, id: u64) -> Seq<char> {
    "Added "@ + task + " with id "@ + decimal(id as nat)
}

/// The line that confirms a removed task.
pub open spec fn removed_line(id: u64) -> Seq<char> {
    "Removed task with id "@ + decimal(id as nat)
}

/// The line that refuses a task because the highest id is already taken.
pub open spec fn full_line(task: Seq<char>) -> Seq<char> {
    "No id is left for "@ + task
}

/// Whether `id` is the highest id in use.
pub open spec fn highest(tasks: Map<u64, Seq<char>>, id: u64) -> bool {
    tasks.contains_key(id) && forall|other: u64| tasks.contains_key(other) ==> other <= id
}

/// The highest id in use, or 0 where no task is open.
pub open spec fn last_id(tasks: Map<u64, Seq<char>>) -> u64 {
    if exists|id: u64| highest(tasks, id) {
        choose|id: u64| highest(tasks, id)
    } else {
        0
    }
}

/// Whether `ids` are the ids in use, in ascending order.
pub open spec fn lists(tasks: Map<u64, Seq<char>>, ids: Seq<u64>) -> bool {
    &&& forall|i: int, j: int| 0 <= i < j < ids.len() ==> ids[i] < ids[j]
    &&& forall|id: u64| ids.contains(id) <==> tasks.contains_key(id)
}

/// Whether `lines` is the listing of the open tasks: one line per task, by
/// ascending id.
pub open spec fn listing(tasks: Map<u64, Seq<char>>, lines: Seq<Emitted>) -> bool {
    exists|ids: Seq<u64>|
        lists(tasks, ids) && lines.len() == ids.len() && forall|i: int|
            0 <= i < ids.len() ==> #[trigger] lines[i] == Emitted::Line(
                task_line(ids[i], tasks[ids[i]]),
            )
}

/// The open tasks after a command. Only a replayed event changes them: it
/// sets the task of its id, or removes it.
pub open spec fn after(tasks: Map<u64, Seq<char>>, msg: TodoInput) -> Map<u64, Seq<char>> {
    match msg {
        TodoInput::Load(id, Some(task)) => tasks.insert(id, task@),
        TodoInput::Load(id, None) => tasks.remove(id),
        _ => tasks,
    }
}

/// Whether `answers` is what the list answers to a command.
pub open spec fn answers(
    tasks: Map<u64, Seq<char>>,
    msg: TodoInput,
    answers: Seq<Emitted>,
) -> bool {
    match msg {
        TodoInput::Help => answers == help_lines(),
        TodoInput::List => listing(tasks, answers),
        TodoInput::Add(task) => if last_id(tasks) < u64::MAX {
            let id = (last_id(tasks) + 1) as u64;
            answers == seq![Emitted::Event(id, Some(task@)), Emitted::Line(added_line(task@, id))]
        } else {
            answers == seq![Emitted::Line(full_line(task@))]
        },
        TodoInput::Remove(id) => answers == seq![
            Emitted::Event(id, None),
            Emitted::Line(removed_line(id)),
        ],
        TodoInput::Load(_, _) => answers == Seq::<Emitted>::empty(),
    }
}

/// The ids that a map iterator yields are strictly ascending numbers.
proof fn lemma_ascending_ids(ids: Seq<u64>)
    requires
        increasing_seq(ids),
    ensures
        forall|i: int, j: int| 0 <= i < j < ids.len() ==> ids[i] < ids[j],
{
    broadcast use vstd::std_specs::btree::group_btree_axioms;
    broadcast use vstd::laws_cmp::group_laws_cmp;

    assert(vstd::laws_cmp::obeys_cmp::<u64>());
    assert forall|i: int, j: int| 0 <= i < j < ids.len() implies ids[i] < ids[j] by {
        assert(ids[i].cmp_spec(&ids[j]) is Less);
    }
}

/// The open tasks of a to-do list, by id.
pub struct Todo {
    tasks: BTreeMap<u64, String>,
}

impl View for Todo {
    type V = Map<u64, Seq<char>>;

    closed spec fn view(&self) -> Map<u64, Seq<char>> {
        Map::new(|id: u64| self.tasks@.contains_key(id), |id: u64| self.tasks@[id]@)
    }
}

impl Todo {
    /// A list without a task.
    pub fn new() -> (todo: Todo)
        ensures
            todo@ == Map::<u64, Seq<char>>::empty(),
    {
        Todo { tasks: BTreeMap::new() }
    }

    /// The number of open tasks.
    pub fn len(&self) -> (len: usize)
        ensures
            len == self@.dom().len(),
    {
        broadcast use vstd::std_specs::btree::group_btree_axioms;

        assert(self@.dom() =~= self.tasks@.dom());
        self.tasks.len()
    }

    /// The text of the task with this id, if it is open.
    pub fn task(&self, id: u64) -> (task: Option<&String>)
        ensures
            match task {
                Some(text) => self@.contains_key(id) && self@[id] == text@,
                None => !self@.contains_key(id),
            },
    {
        broadcast use vstd::std_specs::btree::group_btree_axioms;
        broadcast use vstd::laws_cmp::group_laws_cmp;

        self.tasks.get(&id)
    }

    /// The ids in use with their texts, by ascending id.
    pub fn entries(&self) -> (entries: Vec<(u64, String)>)
        ensures
            lists(self@, Seq::new(entries@.len(), |i: int| entries@[i].0)),
            forall|i: int|
                0 <= i < entries@.len() ==> (#[trigger] entries@[i]).1@ == self@[entries@[i].0],
    {
        broadcast use vstd::std_specs::btree::group_btree_axioms;
        broadcast use vstd::laws_cmp::group_laws_cmp;

        let mut entries: Vec<(u64, String)> = Vec::new();
        let ghost all = self.tasks.iter().remaining();
        for entry in each: self.tasks.iter()
            invariant
                each.seq() == all,
                entries@.len() == each.index(),
                forall|i: int|
                    0 <= i < entries@.len() ==> (#[trigger] entries@[i]).0 == *all[i].0
                        && entries@[i].1@ == (*all[i].1)@,
        {
            entries.push((*entry.0, entry.1.clone()));
        }
        proof {
            let ids = Seq::new(entries@.len(), |i: int| entries@[i].0);
            let keys = all.map_values(|pair: (&u64, &String)| *pair.0);
            assert(keys =~= ids);
            lemma_ascending_ids(keys);
            assert forall|id: u64| ids.contains(id) <==> self@.contains_key(id) by {
                if ids.contains(id) {
                    let i = choose|i: int| 0 <= i < ids.len() && ids[i] == id;
                    assert(self.tasks@.contains_key(*all[i].0));
                }
                if self@.contains_key(id) {
                    assert(all.contains((&id, &self.tasks@[id])));
                    let i = choose|i: int| 0 <= i < all.len() && all[i] == (&id, &self.tasks@[id]);
                    assert(ids[i] == id);
                }
            }
            assert forall|i: int| 0 <= i < entries@.len() implies (#[trigger] entries@[i]).1@
                == self@[entries@[i].0] by {
                assert(self.tasks@.contains_key(*all[i].0));
            }
        }
        entries
    }
}

impl Todo {
    /// The highest id in use, or 0 where no task is open.
    fn last_id(&self) -> (id: u64)
        ensures
            id == last_id(self@),
    {
        broadcast use vstd::std_specs::btree::group_btree_axioms;
        broadcast use vstd::laws_cmp::group_laws_cmp;

        let mut id: u64 = 0;
        let ghost all = self.tasks.iter().remaining();
        for entry in each: self.tasks.iter()
            invariant
                each.seq() == all,
                each.index() == 0 ==> id == 0,
                each.index() > 0 ==> id == *all[each.index() - 1].0,
        {
            id = *entry.0;
        }
        assert(id == last_id(self@)) by {
            let keys = all.map_values(|pair: (&u64, &String)| *pair.0);
            lemma_ascending_ids(keys);
            if all.len() == 0 {
                assert forall|other: u64| !self@.contains_key(other) by {
                    if self@.contains_key(other) {
                        assert(all.contains((&other, &self.tasks@[other])));
                    }
                }
            } else {
                assert(self.tasks@.contains_key(*all[all.len() - 1].0));
                assert forall|other: u64| self@.contains_key(other) implies other <= id by {
                    assert(all.contains((&other, &self.tasks@[other])));
                    let i = choose|i: int|
                        0 <= i < all.len() && all[i] == (&other, &self.tasks@[other]);
                    assert(keys[i] == other);
                    assert(keys[all.len() - 1] == id);
                }
                assert(highest(self@, id));
            }
        }
        id
    }

    /// One line per open task, by ascending id.
    fn list(&self) -> (lines: Vec<TodoOutput>)
        ensures
            listing(self@, emitted(lines@)),
    {
        let entries = self.entries();
        let ghost ids = Seq::new(entries@.len(), |i: int| entries@[i].0);
        let mut lines: Vec<TodoOutput> = Vec::new();
        let mut i: usize = 0;
        while i < entries.len()
            invariant
                i <= entries@.len(),
                lines@.len() == i,
                ids == Seq::new(entries@.len(), |i: int| entries@[i].0),
                forall|j: int|
                    0 <= j < entries@.len() ==> (#[trigger] entries@[j]).1@ == self@[entries@[j].0],
                forall|j: int|
                    0 <= j < i ==> (#[trigger] lines@[j])@ == Emitted::Line(
                        task_line(ids[j], self@[ids[j]]),
                    ),
            decreases entries@.len() - i,
        {
            let mut line = decimal_text(entries[i].0);
            line.append(": ");
            line.append(entries[i].1.as_str());
            lines.push(TodoOutput::PrintLine(line));
            i = i + 1;
        }
        proof {
            let answers = emitted(lines@);
            assert(lists(self@, ids) && answers.len() == ids.len() && forall|j: int|
                0 <= j < ids.len() ==> #[trigger] answers[j] == Emitted::Line(
                    task_line(ids[j], self@[ids[j]]),
                ));
        }
        lines
    }
}

/// The usage lines.
fn help() -> (lines: Vec<TodoOutput>)
    ensures
        emitted(lines@) == help_lines(),
{
    let mut lines: Vec<TodoOutput> = Vec::new();
    lines.push(TodoOutput::PrintLine("Help for Sync demo todo app".to_owned()));
    lines.push(TodoOutput::PrintLine("sync_demo list".to_owned()));
    lines.push(TodoOutput::PrintLine("Will list all the active todo items.".to_owned()));
    lines.push(TodoOutput::PrintLine("sync_demo add [task]".to_owned()));
    lines.push(TodoOutput::PrintLine("Adds task to the todo lists.".to_owned()));
    lines.push(TodoOutput::PrintLine("sync_demo remove [id]".to_owned()));
    lines.push(TodoOutput::PrintLine("Removes/completes the task with id: id.".to_owned()));
    lines
}

impl State for Todo {
    type Input = TodoInput;

    type Output = TodoOutput;

    /// Answers one command. A replayed event is folded into the open tasks
    /// and answered with nothing; every other command leaves the tasks as
    /// they are and is answered with lines and, for a change, with the event
    /// to publish. A new task is given the id after the highest one in use.
    fn handle(&mut self, msg: TodoInput) -> (outputs: Vec<TodoOutput>)
        ensures
            final(self)@ == after(old(self)@, msg),
            answers(old(self)@, msg, emitted(outputs@)),
    {
        broadcast use vstd::std_specs::btree::group_btree_axioms;
        broadcast use vstd::laws_cmp::group_laws_cmp;

        match msg {
            TodoInput::Help => help(),
            TodoInput::Load(id, Some(task)) => {
                self.tasks.insert(id, task);
                let outputs: Vec<TodoOutput> = Vec::new();
                assert(emitted(outputs@) =~= Seq::<Emitted>::empty());
                outputs
            },
            TodoInput::Load(id, None) => {
                self.tasks.remove(&id);
                let outputs: Vec<TodoOutput> = Vec::new();
                assert(emitted(outputs@) =~= Seq::<Emitted>::empty());
                outputs
            },
            TodoInput::List => self.list(),
            TodoInput::Add(task) => {
                let last = self.last_id();
                let mut outputs: Vec<TodoOutput> = Vec::new();
                if last < u64::MAX {
                    let id = last + 1;
                    let mut line = "Added ".to_owned();
                    line.append(task.as_str());
                    line.append(" with id ");
                    line.append(decimal_text(id).as_str());
                    outputs.push(TodoOutput::Publish(id, Some(task)));
                    outputs.push(TodoOutput::PrintLine(line));
                    assert(emitted(outputs@) =~= seq![
                        Emitted::Event(id, Some(task@)),
                        Emitted::Line(added_line(task@, id)),
                    ]);
                } else {
                    let mut line = "No id is left for ".to_owned();
                    line.append(task.as_str());
                    outputs.push(TodoOutput::PrintLine(line));
                    assert(emitted(outputs@) =~= seq![Emitted::Line(full_line(task@))]);
                }
                outputs
            },
            TodoInput::Remove(id) => {
                let mut line = "Removed task with id ".to_owned();
                line.append(decimal_text(id).as_str());
                let mut outputs: Vec<TodoOutput> = Vec::new();
                outputs.push(TodoOutput::Publish(id, None));
                outputs.push(TodoOutput::PrintLine(line));
                assert(emitted(outputs@) =~= seq![
                    Emitted::Event(id, None),
                    Emitted::Line(removed_line(id)),
                ]);
                outputs
            },
        }
    }
}

} // verus!
