//! Tasks and their stored records: a record is a JSON object whose members
//! `id`, `description`, `status`, `createdAt` and `updatedAt` hold strings.
use vstd::prelude::*;
use crate::decimal::{decimal_text, lemma_u32_text_round_trip, parse_u32, parse_u32_spec, u32_to_text};
use crate::error::TrackerError;
use crate::json_value::{get_string, json_string_object, json_strings, new_object, set_string};
use crate::stamp::{stamp_text, valid_stamp_read, Stamp};
use crate::text::same_text;

verus! {

#[derive(Clone, Copy, Debug, PartialEq, Eq, Structural)]
pub enum TaskStatus {
    Todo,
    InProgress,
    Done,
}

#[derive(Debug, PartialEq, Eq)]
pub struct Task {
    pub id: u32,
    pub description: String,
    pub status: TaskStatus,
    pub created_at: Stamp,
    pub updated_at: Stamp,
}

/// A task as a mathematical value.
pub struct TaskView {
    pub id: u32,
    pub description: Seq<char>,
    pub status: TaskStatus,
    pub created_at: Stamp,
    pub updated_at: Stamp,
}

impl TaskView {
    /// Both timestamps can be written.
    pub open spec fn wf(&self) -> bool {
        self.created_at.wf() && self.updated_at.wf()
    }
}

impl View for Task {
    type V = TaskView;

    open spec fn view(&self) -> TaskView {
        TaskView {
            id: self.id,
            description: self.description@,
            status: self.status,
            created_at: self.created_at,
            updated_at: self.updated_at,
        }
    }
}

pub open spec fn key_id() -> Seq<char> {
    seq!['i', 'd']
}

pub open spec fn key_description() -> Seq<char> {
    seq!['d', 'e', 's', 'c', 'r', 'i', 'p', 't', 'i', 'o', 'n']
}

pub open spec fn key_status() -> Seq<char> {
    seq!['s', 't', 'a', 't', 'u', 's']
}

pub open spec fn key_created() -> Seq<char> {
    seq!['c', 'r', 'e', 'a', 't', 'e', 'd', 'A', 't']
}

pub open spec fn key_updated() -> Seq<char> {
    seq!['u', 'p', 'd', 'a', 't', 'e', 'd', 'A', 't']
}

/// The stored token of a status.
pub open spec fn status_text(s: TaskStatus) -> Seq<char> {
    match s {
        TaskStatus::Todo => seq!['t', 'o', 'd', 'o'],
        TaskStatus::InProgress => seq!['i', 'n', '-', 'p', 'r', 'o', 'g', 'r', 'e', 's', 's'],
        TaskStatus::Done => seq!['d', 'o', 'n', 'e'],
    }
}

/// The status whose token is `t`, if any.
pub open spec fn status_read(t: Seq<char>) -> Option<TaskStatus> {
    if t == status_text(TaskStatus::Done) {
        Some(TaskStatus::Done)
    } else if t == status_text(TaskStatus::InProgress) {
        Some(TaskStatus::InProgress)
    } else if t == status_text(TaskStatus::Todo) {
        Some(TaskStatus::Todo)
    } else {
        None
    }
}

/// The string members of the record that stores a task.
pub open spec fn encode(t: TaskView) -> Map<Seq<char>, Seq<char>> {
    map![]
        .insert(key_id(), decimal_text(t.id as nat))
        .insert(key_description(), t.description)
        .insert(key_status(), status_text(t.status))
        .insert(key_created(), stamp_text(t.created_at))
        .insert(key_updated(), stamp_text(t.updated_at))
}

/// The task that a record with string members `m` holds. Fields are looked at
/// in the order id, description, status, createdAt, updatedAt. A missing field
/// or an id that is not a `u32` gives `Ok(None)`: the record is dropped. A status
/// or timestamp that is there but cannot be read is an error.
pub open spec fn decode(m: Map<Seq<char>, Seq<char>>) -> Result<Option<TaskView>, TrackerError> {
    if !m.contains_key(key_id()) {
        Ok(None)
    } else if parse_u32_spec(m[key_id()]) is None {
        Ok(None)
    } else if !m.contains_key(key_description()) || !m.contains_key(key_status()) {
        Ok(None)
    } else if status_read(m[key_status()]) is None {
        Err(TrackerError::CorruptStatus)
    } else if !m.contains_key(key_created()) {
        Ok(None)
    } else if valid_stamp_read(m[key_created()]) is None {
        Err(TrackerError::CorruptTimestamp)
    } else if !m.contains_key(key_updated()) {
        Ok(None)
    } else if valid_stamp_read(m[key_updated()]) is None {
        Err(TrackerError::CorruptTimestamp)
    } else {
        Ok(
            Some(
                TaskView {
                    id: parse_u32_spec(m[key_id()])->Some_0,
                    description: m[key_description()],
                    status: status_read(m[key_status()])->Some_0,
                    created_at: valid_stamp_read(m[key_created()])->Some_0,
                    updated_at: valid_stamp_read(m[key_updated()])->Some_0,
                },
            ),
        )
    }
}

/// The view of a decoding result.
pub open spec fn decoded_view(r: Result<Option<Task>, TrackerError>) -> Result<
    Option<TaskView>,
    TrackerError,
> {
    match r {
        Ok(Some(t)) => Ok(Some(t@)),
        Ok(None) => Ok(None),
        Err(e) => Err(e),
    }
}

proof fn lemma_status_round_trip(s: TaskStatus)
    ensures
        status_read(status_text(s)) == Some(s),
{
    let todo = status_text(TaskStatus::Todo);
    let prog = status_text(TaskStatus::InProgress);
    let done = status_text(TaskStatus::Done);
    assert(todo[0] != done[0]);
    assert(prog.len() != done.len());
    assert(prog.len() != todo.len());
}

/// Decoding the record of a task gives the task back, for a task whose
/// timestamps chrono reads back from the text it writes for them.
pub proof fn lemma_round_trip(t: TaskView)
    requires
        t.wf(),
        t.created_at.reads_back(),
        t.updated_at.reads_back(),
    ensures
        decode(encode(t)) == Ok::<Option<TaskView>, TrackerError>(Some(t)),
{
    lemma_u32_text_round_trip(t.id);
    lemma_status_round_trip(t.status);
    let m = encode(t);
    assert(key_id() != key_description());
    assert(key_id() != key_status());
    assert(key_id() != key_created());
    assert(key_id() != key_updated());
    assert(key_description() != key_status());
    assert(key_description() != key_created());
    assert(key_description() != key_updated());
    assert(key_status() != key_created());
    assert(key_status() != key_updated());
    assert(key_created()[0] != key_updated()[0]);
    assert(m[key_id()] == decimal_text(t.id as nat));
    assert(m[key_description()] == t.description);
    assert(m[key_status()] == status_text(t.status));
    assert(m[key_created()] == stamp_text(t.created_at));
    assert(m[key_updated()] == stamp_text(t.updated_at));
}

fn id_key() -> (r: &'static str)
    ensures
        r@ == key_id(),
{
    proof { reveal_strlit("id"); }
    "id"
}

fn description_key() -> (r: &'static str)
    ensures
        r@ == key_description(),
{
    proof { reveal_strlit("description"); }
    "description"
}

fn status_key() -> (r: &'static str)
    ensures
        r@ == key_status(),
{
    proof { reveal_strlit("status"); }
    "status"
}

fn created_key() -> (r: &'static str)
    ensures
        r@ == key_created(),
{
    proof { reveal_strlit("createdAt"); }
    "createdAt"
}

fn updated_key() -> (r: &'static str)
    ensures
        r@ == key_updated(),
{
    proof { reveal_strlit("updatedAt"); }
    "updatedAt"
}

impl TaskStatus {
    /// The stored token: `todo`, `in-progress` or `done`.
    pub fn token(&self) -> (r: &'static str)
        ensures
            r@ == status_text(*self),
    {
        match self {
            TaskStatus::Todo => {
                proof { reveal_strlit("todo"); }
                "todo"
            },
            TaskStatus::InProgress => {
                proof { reveal_strlit("in-progress"); }
                "in-progress"
            },
            TaskStatus::Done => {
                proof { reveal_strlit("done"); }
                "done"
            },
        }
    }

    /// The status whose token is exactly `t`.
    pub fn from_token(t: &str) -> (r: Option<TaskStatus>)
        ensures
            r == status_read(t@),
    {
        if same_text(t, TaskStatus::Done.token()) {
            Some(TaskStatus::Done)
        } else if same_text(t, TaskStatus::InProgress.token()) {
            Some(TaskStatus::InProgress)
        } else if same_text(t, TaskStatus::Todo.token()) {
            Some(TaskStatus::Todo)
        } else {
            None
        }
    }
}

impl Task {
    pub open spec fn wf(&self) -> bool {
        self@.wf()
    }

    /// A copy of the task.
    pub fn copy(&self) -> (r: Task)
        ensures
            r@ == self@,
    {
        Task {
            id: self.id,
            description: self.description.clone(),
            status: self.status,
            created_at: self.created_at,
            updated_at: self.updated_at,
        }
    }

    /// Reads a task from a stored record (see `decode`).
    pub fn from_json(value: &json::JsonValue) -> (r: Result<Option<Task>, TrackerError>)
        ensures
            decoded_view(r) == decode(json_strings(*value)),
            r matches Ok(Some(t)) ==> t.wf(),
    {
        let id_text = match get_string(value, id_key()) {
            Some(s) => s,
            None => return Ok(None),
        };
        let id = match parse_u32(id_text.as_str()) {
            Some(n) => n,
            None => return Ok(None),
        };
        let description = match get_string(value, description_key()) {
            Some(s) => s,
            None => return Ok(None),
        };
        let status_token = match get_string(value, status_key()) {
            Some(s) => s,
            None => return Ok(None),
        };
        let status = match TaskStatus::from_token(status_token.as_str()) {
            Some(s) => s,
            None => return Err(TrackerError::CorruptStatus),
        };
        let created_text = match get_string(value, created_key()) {
            Some(s) => s,
            None => return Ok(None),
        };
        let created_at = match Stamp::from_text(created_text.as_str()) {
            Some(s) => s,
            None => return Err(TrackerError::CorruptTimestamp),
        };
        let updated_text = match get_string(value, updated_key()) {
            Some(s) => s,
            None => return Ok(None),
        };
        let updated_at = match Stamp::from_text(updated_text.as_str()) {
            Some(s) => s,
            None => return Err(TrackerError::CorruptTimestamp),
        };
        Ok(Some(Task { id, description, status, created_at, updated_at }))
    }

    /// The stored record of the task (see `encode`).
    pub fn to_json(&self) -> (r: json::JsonValue)
        requires
            self.wf(),
        ensures
            json_strings(r) == encode(self@),
            json_string_object(r),
    {
        let mut obj = new_object();
        let id_text = u32_to_text(self.id);
        set_string(&mut obj, id_key(), id_text.as_str());
        set_string(&mut obj, description_key(), self.description.as_str());
        set_string(&mut obj, status_key(), self.status.token());
        let created = self.created_at.to_text();
        set_string(&mut obj, created_key(), created.as_str());
        let updated = self.updated_at.to_text();
        set_string(&mut obj, updated_key(), updated.as_str());
        obj
    }
}

} // verus!
