//! The command line of the to-do program.

use vstd::prelude::*;

use crate::todo::text::{parse_id, parsed};
use crate::todo::TodoInput;

verus! {

/// Whether `msg` is the command that the arguments of the program ask for.
/// The first argument is the program's name. `list`, `add` with a task, and
/// `remove` with an id are answered as such; anything else asks for help.
pub open spec fn asks(args: Seq<String>, msg: TodoInput) -> bool {
    if args.len() == 2 && args[1]@ == "list"@ {
        msg is List
    } else if args.len() == 3 && args[1]@ == "add"@ {
        msg matches TodoInput::Add(task) && task@ == args[2]@
    } else if args.len() == 3 && args[1]@ == "remove"@ && parsed(args[2]@) is Some {
        msg matches TodoInput::Remove(id) && Some(id) == parsed(args[2]@)
    } else {
        msg is Help
    }
}

/// Whether an argument is this word.
fn is_word(arg: &String, word: &str) -> (same: bool)
    ensures
        same == (arg@ == word@),
{
    *arg == word.to_owned()
}

/// The command that the arguments of the program ask for.
pub fn command(args: &Vec<String>) -> (msg: TodoInput)
    ensures
        asks(args@, msg),
{
    if args.len() == 2 && is_word(&args[1], "list") {
        return TodoInput::List;
    }
    if args.len() == 3 {
        if is_word(&args[1], "add") {
            return TodoInput::Add(args[2].clone());
        }
        if is_word(&args[1], "remove") {
            match parse_id(args[2].as_str()) {
                Some(id) => {
                    return TodoInput::Remove(id);
                },
                None => {},
            }
        }
    }
    TodoInput::Help
}

} // verus!
