//! The in-memory task list and the text it is kept as.

use vstd::prelude::*;
use crate::lines::{
    ends_with_return, lemma_lines_hold_no_line_feed, lemma_lines_of_joined, lines_of, split_lines,
};
use crate::number::{decimal, push_decimal};
use crate::text::{join_from, joined, same_text, texts};

verus! {

/// An ordered list of task descriptions. Position `i`, counted from 1, names
/// the `i`-th description in insertion order.
#[derive(Debug)]
pub struct ToDoList {
    tasks: Vec<String>,
}

impl View for ToDoList {
    type V = Seq<Seq<char>>;

    closed spec fn view(&self) -> Seq<Seq<char>> {
        texts(self.tasks@)
    }
}

/// What a read of the stored text gave: the text, or nothing where it could
/// not be read. A text that cannot be read counts as an empty list.
pub open spec fn loaded(stored: Option<&str>) -> Seq<Seq<char>> {
    match stored {
        Some(text) => lines_of(text@),
        None => Seq::empty(),
    }
}

/// The text that a list is kept as: its descriptions with a line feed
/// between neighbours, and none at the end.
pub open spec fn stored_text(tasks: Seq<Seq<char>>) -> Seq<char> {
    joined(tasks, seq!['\n'])
}

/// What is shown for the task at `position`, counted from 0: its number,
/// counted from 1, a colon, a space and the description.
pub open spec fn listed_line(tasks: Seq<Seq<char>>, position: int) -> Seq<char> {
    decimal((position + 1) as nat) + seq![':', ' '] + tasks[position]
}

/// Shown for a list without tasks.
pub const NO_TASKS: &'static str = "No tasks.";

/// What is shown for a list: one line for each task in insertion order, or a
/// single notice where there is none.
pub open spec fn listing(tasks: Seq<Seq<char>>) -> Seq<Seq<char>> {
    if tasks.len() == 0 {
        seq![NO_TASKS@]
    } else {
        Seq::new(tasks.len(), |position: int| listed_line(tasks, position))
    }
}

impl ToDoList {
    /// The list that the stored text holds.
    pub fn new(stored: Option<&str>) -> (list: ToDoList)
        ensures
            list@ == loaded(stored),
    {
        ToDoList { tasks: ToDoList::load_tasks(stored) }
    }

    /// The descriptions that the stored text holds, one for each line.
    pub fn load_tasks(stored: Option<&str>) -> (tasks: Vec<String>)
        ensures
            texts(tasks@) == loaded(stored),
    {
        match stored {
            Some(text) => split_lines(text),
            None => Vec::new(),
        }
    }

    /// The text to store for this list.
    pub fn save_tasks(&self) -> (text: String)
        ensures
            text@ == stored_text(self@),
    {
        proof {
            reveal_strlit("\n");
            assert("\n"@ =~= seq!['\n']);
            assert(texts(self.tasks@).skip(0) =~= texts(self.tasks@));
        }
        join_from(&self.tasks, 0, "\n")
    }

    /// The descriptions, in order.
    pub fn tasks(&self) -> (tasks: &Vec<String>)
        ensures
            texts(tasks@) == self@,
    {
        &self.tasks
    }

    /// Whether some entry is exactly `task`: every character counts, and
    /// nothing is trimmed.
    pub fn task_exists(&self, task: &str) -> (found: bool)
        ensures
            found == self@.contains(task@),
    {
        let mut i: usize = 0;
        while i < self.tasks.len()
            invariant
                i <= self.tasks@.len(),
                forall|k: int| 0 <= k < i ==> self@[k] != task@,
            decreases self.tasks@.len() - i,
        {
            if same_text(self.tasks[i].as_str(), task) {
                assert(self@[i as int] == task@);
                return true;
            }
            i += 1;
        }
        false
    }

    /// Appends `task` as the new last entry. Nothing is checked: an empty or
    /// repeated description is stored like any other.
    pub fn add_task(&mut self, task: &str)
        ensures
            final(self)@ == old(self)@.push(task@),
    {
        self.tasks.push(task.to_owned());
    }

    /// The lines to show for this list.
    pub fn list_tasks(&self) -> (shown: Vec<String>)
        ensures
            texts(shown@) == listing(self@),
    {
        let mut shown: Vec<String> = Vec::new();
        if self.tasks.len() == 0 {
            shown.push(NO_TASKS.to_owned());
            return shown;
        }
        let mut i: usize = 0;
        while i < self.tasks.len()
            invariant
                i <= self.tasks@.len(),
                shown@.len() == i,
                forall|k: int| 0 <= k < i ==> shown@[k]@ == listed_line(self@, k),
            decreases self.tasks@.len() - i,
        {
            let mut line = String::new();
            push_decimal(&mut line, i + 1);
            line.push(':');
            line.push(' ');
            line.append(self.tasks[i].as_str());
            shown.push(line);
            i += 1;
        }
        shown
    }

    /// Removes the entry at `index`, counted from 1, and moves the later ones
    /// up by one. Says whether there was such an entry; where there was none
    /// the list stays as it is.
    pub fn remove_task(&mut self, index: usize) -> (removed: bool)
        ensures
            removed == (1 <= index <= old(self)@.len()),
            removed ==> final(self)@ == old(self)@.remove(index - 1),
            !removed ==> final(self)@ == old(self)@,
    {
        if index >= 1 && index <= self.tasks.len() {
            self.tasks.remove(index - 1);
            true
        } else {
            false
        }
    }
}

/// Whether a list comes back as it was when its stored text is read: no
/// description holds a line feed, none but the last ends with a carriage
/// return, and the last is not empty.
pub open spec fn survives_storing(tasks: Seq<Seq<char>>) -> bool {
    &&& forall|i: int| 0 <= i < tasks.len() ==> !(#[trigger] tasks[i]).contains('\n')
    &&& forall|i: int| 0 <= i < tasks.len() - 1 ==> !ends_with_return(#[trigger] tasks[i])
    &&& tasks.len() > 0 ==> tasks.last().len() > 0
}

/// Storing a list and reading the stored text gives the same list again,
/// for every list that `survives_storing` admits.
pub proof fn lemma_save_then_load(tasks: Seq<Seq<char>>, text: &str)
    requires
        survives_storing(tasks),
        text@ == stored_text(tasks),
    ensures
        loaded(Some(text)) == tasks,
{
    lemma_lines_of_joined(tasks);
}

/// No other list comes back as it was: one that does, `survives_storing`
/// admits.
pub proof fn lemma_only_survivors_come_back(tasks: Seq<Seq<char>>, text: &str)
    requires
        text@ == stored_text(tasks),
        loaded(Some(text)) == tasks,
    ensures
        survives_storing(tasks),
{
    lemma_lines_hold_no_line_feed(text@);
    lemma_lines_of_joined(tasks);
}

/// Removing at `index`, counted from 1, leaves one entry fewer: those before
/// the position stay where they were, and each later one moves up by one.
pub proof fn lemma_remove_shifts(tasks: Seq<Seq<char>>, index: int)
    requires
        1 <= index <= tasks.len(),
    ensures
        tasks.remove(index - 1).len() == tasks.len() - 1,
        forall|k: int| 0 <= k < index - 1 ==> #[trigger] tasks.remove(index - 1)[k] == tasks[k],
        forall|k: int|
            index - 1 <= k < tasks.len() - 1 ==> #[trigger] tasks.remove(index - 1)[k] == tasks[k
                + 1],
{
}

} // verus!
