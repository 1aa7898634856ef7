//! Commands: reading one from the process arguments, and applying it to a
//! collection.
use vstd::prelude::*;
use crate::decimal::{parse_u32, parse_u32_spec};
use crate::error::TrackerError;
use crate::ops::{add_task, delete, list, max_id, new_task, next_id, of_status, set_status, update, views, with_description, with_status_set, without_id};
use crate::stamp::Stamp;
use crate::store::collection_view;
use crate::task::{status_read, Task, TaskStatus, TaskView};
use crate::text::same_text;

verus! {

pub struct AddCommand {
    pub description: String,
}

pub struct UpdateCommand {
    pub id: u32,
    pub description: String,
}

pub struct DeleteCommand {
    pub id: u32,
}

pub struct MarkInProgressCommand {
    pub id: u32,
}

pub struct MarkInDoneCommand {
    pub id: u32,
}

pub struct ListCommand {
    pub status: TaskStatus,
}

pub enum EnumSubCommands {
    Add(AddCommand),
    Update(UpdateCommand),
    Delete(DeleteCommand),
    MarkInProgress(MarkInProgressCommand),
    MarkDone(MarkInDoneCommand),
    List(ListCommand),
}

pub struct Cli {
    pub subcommand: EnumSubCommands,
}

/// A command as a mathematical value.
pub enum CommandView {
    Add(Seq<char>),
    Update(u32, Seq<char>),
    Delete(u32),
    MarkInProgress(u32),
    MarkDone(u32),
    List(TaskStatus),
}

impl View for Cli {
    type V = CommandView;

    open spec fn view(&self) -> CommandView {
        match &self.subcommand {
            EnumSubCommands::Add(c) => CommandView::Add(c.description@),
            EnumSubCommands::Update(c) => CommandView::Update(c.id, c.description@),
            EnumSubCommands::Delete(c) => CommandView::Delete(c.id),
            EnumSubCommands::MarkInProgress(c) => CommandView::MarkInProgress(c.id),
            EnumSubCommands::MarkDone(c) => CommandView::MarkDone(c.id),
            EnumSubCommands::List(c) => CommandView::List(c.status),
        }
    }
}

/// The id parameter at `i`: missing, not a number, or the id.
pub open spec fn id_arg(a: Seq<Seq<char>>, i: int) -> Result<u32, TrackerError> {
    if a.len() <= i {
        Err(TrackerError::MissingArgument)
    } else if parse_u32_spec(a[i]) is None {
        Err(TrackerError::BadId)
    } else {
        Ok(parse_u32_spec(a[i])->Some_0)
    }
}

/// The command that the process arguments `a` name; `a[0]` is the program.
pub open spec fn command_of(a: Seq<Seq<char>>) -> Result<CommandView, TrackerError> {
    if a.len() < 2 {
        Err(TrackerError::UnknownCommand)
    } else if a[1] == "add"@ {
        if a.len() < 3 { Err(TrackerError::MissingArgument) } else { Ok(CommandView::Add(a[2])) }
    } else if a[1] == "update"@ {
        match id_arg(a, 2) {
            Err(e) => Err(e),
            Ok(id) => if a.len() < 4 {
                Err(TrackerError::MissingArgument)
            } else {
                Ok(CommandView::Update(id, a[3]))
            },
        }
    } else if a[1] == "delete"@ {
        match id_arg(a, 2) {
            Err(e) => Err(e),
            Ok(id) => Ok(CommandView::Delete(id)),
        }
    } else if a[1] == "mark-in-progress"@ {
        match id_arg(a, 2) {
            Err(e) => Err(e),
            Ok(id) => Ok(CommandView::MarkInProgress(id)),
        }
    } else if a[1] == "mark-done"@ {
        match id_arg(a, 2) {
            Err(e) => Err(e),
            Ok(id) => Ok(CommandView::MarkDone(id)),
        }
    } else if a[1] == "list"@ {
        if a.len() < 3 {
            Err(TrackerError::MissingArgument)
        } else if status_read(a[2]) is None {
            Err(TrackerError::BadStatus)
        } else {
            Ok(CommandView::List(status_read(a[2])->Some_0))
        }
    } else {
        Err(TrackerError::UnknownCommand)
    }
}

/// What a command does to a collection `s`: the tasks it lists (none but for
/// `List`), or its error, and the collection after it.
pub open spec fn apply(c: CommandView, s: Seq<TaskView>, now: Stamp) -> (
    Result<Seq<TaskView>, TrackerError>,
    Seq<TaskView>,
) {
    match c {
        CommandView::Add(d) => if max_id(s) < u32::MAX {
            (Ok(Seq::empty()), s.push(new_task(next_id(s) as u32, d, now)))
        } else {
            (Err(TrackerError::IdsExhausted), s)
        },
        CommandView::Update(id, d) => (Ok(Seq::empty()), with_description(s, id, d)),
        CommandView::Delete(id) => (Ok(Seq::empty()), without_id(s, id)),
        CommandView::MarkInProgress(id) => (
            Ok(Seq::empty()),
            with_status_set(s, id, TaskStatus::InProgress),
        ),
        CommandView::MarkDone(id) => (Ok(Seq::empty()), with_status_set(s, id, TaskStatus::Done)),
        CommandView::List(st) => (Ok(of_status(s, st)), s),
    }
}

/// The views of the arguments.
pub open spec fn arg_views(args: Seq<String>) -> Seq<Seq<char>> {
    args.map_values(|s: String| s@)
}

/// The view of a command read from the arguments.
pub open spec fn built_view(r: Result<Cli, TrackerError>) -> Result<CommandView, TrackerError> {
    match r {
        Ok(c) => Ok(c@),
        Err(e) => Err(e),
    }
}

fn read_id(args: &Vec<String>, i: usize) -> (r: Result<u32, TrackerError>)
    ensures
        r == id_arg(arg_views(args@), i as int),
{
    if args.len() <= i {
        return Err(TrackerError::MissingArgument);
    }
    match parse_u32(args[i].as_str()) {
        Some(id) => Ok(id),
        None => Err(TrackerError::BadId),
    }
}

impl Cli {
    /// Reads the command from the process arguments (see `command_of`).
    pub fn build(args: &Vec<String>) -> (r: Result<Cli, TrackerError>)
        ensures
            built_view(r) == command_of(arg_views(args@)),
    {
        let ghost a = arg_views(args@);
        if args.len() < 2 {
            return Err(TrackerError::UnknownCommand);
        }
        let word = args[1].as_str();
        assert(word@ == a[1]);
        let subcommand = if same_text(word, "add") {
            if args.len() < 3 {
                return Err(TrackerError::MissingArgument);
            }
            assert(args@[2]@ == a[2]);
            EnumSubCommands::Add(AddCommand { description: args[2].clone() })
        } else if same_text(word, "update") {
            let id = match read_id(args, 2) {
                Ok(id) => id,
                Err(e) => return Err(e),
            };
            if args.len() < 4 {
                return Err(TrackerError::MissingArgument);
            }
            assert(args@[3]@ == a[3]);
            EnumSubCommands::Update(UpdateCommand { id, description: args[3].clone() })
        } else if same_text(word, "delete") {
            let id = match read_id(args, 2) {
                Ok(id) => id,
                Err(e) => return Err(e),
            };
            EnumSubCommands::Delete(DeleteCommand { id })
        } else if same_text(word, "mark-in-progress") {
            let id = match read_id(args, 2) {
                Ok(id) => id,
                Err(e) => return Err(e),
            };
            EnumSubCommands::MarkInProgress(MarkInProgressCommand { id })
        } else if same_text(word, "mark-done") {
            let id = match read_id(args, 2) {
                Ok(id) => id,
                Err(e) => return Err(e),
            };
            EnumSubCommands::MarkDone(MarkInDoneCommand { id })
        } else if same_text(word, "list") {
            if args.len() < 3 {
                return Err(TrackerError::MissingArgument);
            }
            assert(args@[2]@ == a[2]);
            match TaskStatus::from_token(args[2].as_str()) {
                Some(status) => EnumSubCommands::List(ListCommand { status }),
                None => return Err(TrackerError::BadStatus),
            }
        } else {
            return Err(TrackerError::UnknownCommand);
        };
        Ok(Cli { subcommand })
    }

    /// Whether the command changes the collection, so that it is to be stored
    /// again afterwards: all but `List`.
    pub fn saves(&self) -> (r: bool)
        ensures
            r == !(self@ is List),
    {
        match &self.subcommand {
            EnumSubCommands::List(_) => false,
            _ => true,
        }
    }

    /// Applies the command to the collection (see `apply`), with `now` as the
    /// time of an add. Returns the tasks that it lists.
    pub fn run(&self, tasks: &mut Vec<Task>, now: Stamp) -> (r: Result<Vec<Task>, TrackerError>)
        requires
            now.wf(),
        ensures
            collection_view(r) == apply(self@, views(old(tasks)@), now).0,
            views(final(tasks)@) == apply(self@, views(old(tasks)@), now).1,
    {
        let none: Vec<Task> = Vec::new();
        assert(views(none@) =~= Seq::<TaskView>::empty());
        match &self.subcommand {
            EnumSubCommands::Add(c) => match add_task(tasks, c.description.clone(), now) {
                Ok(_) => Ok(none),
                Err(e) => Err(e),
            },
            EnumSubCommands::Update(c) => {
                update(tasks, c.id, c.description.as_str());
                Ok(none)
            },
            EnumSubCommands::Delete(c) => {
                delete(tasks, c.id);
                Ok(none)
            },
            EnumSubCommands::MarkInProgress(c) => {
                set_status(tasks, c.id, TaskStatus::InProgress);
                Ok(none)
            },
            EnumSubCommands::MarkDone(c) => {
                set_status(tasks, c.id, TaskStatus::Done);
                Ok(none)
            },
            EnumSubCommands::List(c) => Ok(list(tasks, c.status)),
        }
    }
}

} // verus!
