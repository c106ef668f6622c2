//! The commands of the task list: reading one from the arguments, and
//! carrying it out on a list.

use vstd::prelude::*;
use crate::number::{decimal, lemma_decimal_reads_back, number_of, parse_index};
use crate::store::{listing, ToDoList};
use crate::text::{join_from, joined, same_text, texts};

verus! {

/// What the user asked for.
#[derive(Debug, PartialEq, Eq)]
pub enum Command {
    /// Add the description, unless the list holds it already.
    Add(String),
    /// `add` with nothing after it.
    MissingDescription,
    /// Show the list.
    List,
    /// Remove the task at this position, counted from 1.
    Remove(usize),
    /// `remove` with nothing after it.
    MissingIndex,
    /// `remove` with something that is no position.
    InvalidIndex,
    /// A word that is no command.
    Unknown,
    /// No command at all.
    Usage,
}

/// A command as the contracts see it: the same cases as `Command`, with a
/// sequence of characters for the description and a natural number for the
/// position.
pub enum Request {
    Add(Seq<char>),
    MissingDescription,
    List,
    Remove(nat),
    MissingIndex,
    InvalidIndex,
    Unknown,
    Usage,
}

impl View for Command {
    type V = Request;

    open spec fn view(&self) -> Request {
        match self {
            Command::Add(description) => Request::Add(description@),
            Command::MissingDescription => Request::MissingDescription,
            Command::List => Request::List,
            Command::Remove(index) => Request::Remove(*index as nat),
            Command::MissingIndex => Request::MissingIndex,
            Command::InvalidIndex => Request::InvalidIndex,
            Command::Unknown => Request::Unknown,
            Command::Usage => Request::Usage,
        }
    }
}

/// What carrying out a command gave: the lines to show, and whether the list
/// changed and is to be stored.
#[derive(Debug, PartialEq, Eq)]
pub struct Outcome {
    pub messages: Vec<String>,
    pub save: bool,
}

/// Said before a description that was added.
pub const TASK_ADDED: &'static str = "Task added: ";

/// Said before a description that the list holds already.
pub const TASK_EXISTS: &'static str = "This \
    task already exists: ";

/// Said where `add` has nothing after it.
pub const DESCRIPTION_MISSING: &'static str = "Please provide a task description.";

/// Said where a task was removed.
pub const TASK_REMOVED: &'static str = "Task removed.";

/// Said where the list has no task at the position.
pub const TASK_NOT_FOUND: &'static str = "Task not found.";

/// Said where `remove` has nothing after it.
pub const INDEX_MISSING: &'static str = "Please provide a task index to remove.";

/// Said where what follows `remove` is no position.
pub const INDEX_INVALID: &'static str = "Invalid task index.";

/// Said where the command word is none of the three.
pub const COMMAND_INVALID: &'static str = "Invalid command. Use 'add', 'list', or 'remove'.";

/// Said where there is no command word: the first of four lines.
pub const USAGE: &'static str = "Please use the following commands to run the application:";

/// Said where there is no command word: how to add.
pub const USAGE_ADD: &'static str = "Add a new task: cargo run -- add <task_description>";

/// Said where there is no command word: how to list.
pub const USAGE_LIST: &'static str = "List all tasks: cargo run -- list";

/// Said where there is no command word: how to remove.
pub const USAGE_REMOVE: &'static str = "Remove a task by index: cargo run -- remove <task_index>";

/// The command that the arguments of the process stand for. The first
/// argument is the program's own name, the second the command word. `add`
/// takes all further arguments as one description, with a space between
/// neighbours; `remove` reads the third argument as a position and ignores
/// the rest; `list` ignores them all.
pub open spec fn request_of(args: Seq<Seq<char>>) -> Request {
    if args.len() <= 1 {
        Request::Usage
    } else if args[1] == "add"@ {
        if args.len() > 2 {
            Request::Add(joined(args.skip(2), " "@))
        } else {
            Request::MissingDescription
        }
    } else if args[1] == "list"@ {
        Request::List
    } else if args[1] == "remove"@ {
        if args.len() <= 2 {
            Request::MissingIndex
        } else if number_of(args[2]) is Some && number_of(args[2])->0 <= usize::MAX {
            Request::Remove(number_of(args[2])->0)
        } else {
            Request::InvalidIndex
        }
    } else {
        Request::Unknown
    }
}

/// The list after `request` was carried out on `tasks`. Only two requests
/// change it: adding a description that it does not hold, and removing at a
/// position that it has.
pub open spec fn tasks_after(tasks: Seq<Seq<char>>, request: Request) -> Seq<Seq<char>> {
    match request {
        Request::Add(description) => if tasks.contains(description) {
            tasks
        } else {
            tasks.push(description)
        },
        Request::Remove(index) => if 1 <= index <= tasks.len() {
            tasks.remove(index - 1)
        } else {
            tasks
        },
        _ => tasks,
    }
}

/// Whether the list is to be stored after `request` was carried out on
/// `tasks`.
pub open spec fn saves(tasks: Seq<Seq<char>>, request: Request) -> bool {
    match request {
        Request::Add(description) => !tasks.contains(description),
        Request::Remove(index) => 1 <= index <= tasks.len(),
        _ => false,
    }
}

/// The lines to show after `request` was carried out on `tasks`.
pub open spec fn messages_for(tasks: Seq<Seq<char>>, request: Request) -> Seq<Seq<char>> {
    match request {
        Request::Add(description) => if tasks.contains(description) {
            seq![TASK_EXISTS@ + description]
        } else {
            seq![TASK_ADDED@ + description]
        },
        Request::MissingDescription => seq![DESCRIPTION_MISSING@],
        Request::List => listing(tasks),
        Request::Remove(index) => if 1 <= index <= tasks.len() {
            seq![TASK_REMOVED@]
        } else {
            seq![TASK_NOT_FOUND@]
        },
        Request::MissingIndex => seq![INDEX_MISSING@],
        Request::InvalidIndex => seq![INDEX_INVALID@],
        Request::Unknown => seq![COMMAND_INVALID@],
        Request::Usage => seq![USAGE@, USAGE_ADD@, USAGE_LIST@, USAGE_REMOVE@],
    }
}

fn one_line(line: String) -> (lines: Vec<String>)
    ensures
        texts(lines@) == seq![line@],
{
    let mut lines: Vec<String> = Vec::new();
    lines.push(line);
    lines
}

fn notice(text: &str, description: &str) -> (lines: Vec<String>)
    ensures
        texts(lines@) == seq![text@ + description@],
{
    let mut line = text.to_owned();
    line.append(description);
    one_line(line)
}

impl Command {
    /// Reads the command from the arguments of the process.
    pub fn parse(args: &Vec<String>) -> (command: Command)
        ensures
            command@ == request_of(texts(args@)),
    {
        if args.len() <= 1 {
            return Command::Usage;
        }
        let word = args[1].as_str();
        if same_text(word, "add") {
            if args.len() > 2 {
                Command::Add(join_from(args, 2, " "))
            } else {
                Command::MissingDescription
            }
        } else if same_text(word, "list") {
            Command::List
        } else if same_text(word, "remove") {
            if args.len() <= 2 {
                Command::MissingIndex
            } else {
                match parse_index(args[2].as_str()) {
                    Some(index) => Command::Remove(index),
                    None => Command::InvalidIndex,
                }
            }
        } else {
            Command::Unknown
        }
    }

    /// Carries the command out on `list`.
    pub fn execute(&self, list: &mut ToDoList) -> (outcome: Outcome)
        ensures
            final(list)@ == tasks_after(old(list)@, self@),
            texts(outcome.messages@) == messages_for(old(list)@, self@),
            outcome.save == saves(old(list)@, self@),
    {
        match self {
            Command::Add(description) => {
                if list.task_exists(description.as_str()) {
                    Outcome { messages: notice(TASK_EXISTS, description.as_str()), save: false }
                } else {
                    list.add_task(description.as_str());
                    Outcome { messages: notice(TASK_ADDED, description.as_str()), save: true }
                }
            },
            Command::MissingDescription => Outcome {
                messages: one_line(DESCRIPTION_MISSING.to_owned()),
                save: false,
            },
            Command::List => Outcome { messages: list.list_tasks(), save: false },
            Command::Remove(index) => {
                if list.remove_task(*index) {
                    Outcome { messages: one_line(TASK_REMOVED.to_owned()), save: true }
                } else {
                    Outcome { messages: one_line(TASK_NOT_FOUND.to_owned()), save: false }
                }
            },
            Command::MissingIndex => Outcome {
                messages: one_line(INDEX_MISSING.to_owned()),
                save: false,
            },
            Command::InvalidIndex => Outcome {
                messages: one_line(INDEX_INVALID.to_owned()),
                save: false,
            },
            Command::Unknown => Outcome {
                messages: one_line(COMMAND_INVALID.to_owned()),
                save: false,
            },
            Command::Usage => {
                let mut messages: Vec<String> = Vec::new();
                messages.push(USAGE.to_owned());
                messages.push(USAGE_ADD.to_owned());
                messages.push(USAGE_LIST.to_owned());
                messages.push(USAGE_REMOVE.to_owned());
                Outcome { messages, save: false }
            },
        }
    }
}

/// The list after each of `descriptions` in turn was asked to be added to
/// `tasks`.
pub open spec fn after_adds(tasks: Seq<Seq<char>>, descriptions: Seq<Seq<char>>) -> Seq<Seq<char>>
    decreases descriptions.len(),
{
    if descriptions.len() == 0 {
        tasks
    } else {
        tasks_after(
            after_adds(tasks, descriptions.drop_last()),
            Request::Add(descriptions.last()),
        )
    }
}

/// Descriptions that differ from one another, added to the empty list one
/// after another, are listed in the order in which they were added, each
/// under its position counted from 1.
pub proof fn lemma_adds_are_listed_in_order(descriptions: Seq<Seq<char>>)
    requires
        descriptions.no_duplicates(),
    ensures
        after_adds(Seq::empty(), descriptions) == descriptions,
        descriptions.len() > 0 ==> listing(after_adds(Seq::empty(), descriptions)).len()
            == descriptions.len(),
        forall|i: int|
            0 <= i < descriptions.len() ==> #[trigger] listing(
                after_adds(Seq::empty(), descriptions),
            )[i] == decimal((i + 1) as nat) + seq![':', ' '] + descriptions[i],
    decreases descriptions.len(),
{
    if descriptions.len() > 0 {
        lemma_adds_are_listed_in_order(descriptions.drop_last());
    }
}

/// Asking to add a description that the list holds changes nothing: the
/// list stays as it is and is not stored again.
pub proof fn lemma_duplicate_is_rejected(tasks: Seq<Seq<char>>, description: Seq<char>)
    requires
        tasks.contains(description),
    ensures
        tasks_after(tasks, Request::Add(description)) == tasks,
        !saves(tasks, Request::Add(description)),
        messages_for(tasks, Request::Add(description)) == seq![TASK_EXISTS@ + description],
{
}

/// A list in which no description occurs twice stays so under every request.
pub proof fn lemma_requests_keep_tasks_distinct(tasks: Seq<Seq<char>>, request: Request)
    requires
        tasks.no_duplicates(),
    ensures
        tasks_after(tasks, request).no_duplicates(),
{
}

/// The list is stored exactly when the request changed it.
pub proof fn lemma_saves_what_changed(tasks: Seq<Seq<char>>, request: Request)
    ensures
        saves(tasks, request) <==> tasks_after(tasks, request) != tasks,
{
}

/// The position under which a task is listed, given to `remove` as it is
/// shown, is read as that position.
pub proof fn lemma_listed_position_is_read(args: Seq<Seq<char>>, position: nat)
    requires
        args.len() >= 3,
        args[1] == "remove"@,
        args[2] == decimal(position),
        position <= usize::MAX,
    ensures
        request_of(args) == Request::Remove(position),
{
    reveal_strlit("add");
    reveal_strlit("list");
    reveal_strlit("remove");
    assert("add"@.len() == 3 && "list"@.len() == 4 && "remove"@.len() == 6);
    lemma_decimal_reads_back(position);
}

} // verus!
