//! The stored form of a task list: a JSON array with one object per task,
//! whose members are `id`, `description` and `completed`, in this order.
//!
//! Reading and writing the storage itself is left to the caller. This file
//! turns what was read into a list, and a list into the text to write.

use vstd::prelude::*;
use crate::json::{
    array_value, bool_value, json_model, json_models, member, member_at, member_models, member_of,
    number_value, object_value, parse, parsed_json, pretty, pretty_json, text_value, JsonModel,
    NumberModel,
};
use crate::task::{list_view, TaskView, TodoItem};

verus! {

/// Why a list could not be loaded or saved.
#[derive(Debug, Clone, Copy, PartialEq, Eq, Structural)]
pub enum StoreError {
    /// The storage could not be read or written.
    IoFailure,
    /// The storage does not hold a task list.
    CorruptState,
}

/// What an attempt to read the storage found.
#[derive(Debug)]
pub enum Stored {
    /// There is no storage yet.
    Missing,
    /// There is storage, and reading it failed.
    Unreadable,
    /// The text that the storage holds.
    Text(String),
}

/// The key of a task's identifier.
pub open spec fn id_key() -> Seq<char> {
    "id"@
}

/// The key of a task's description.
pub open spec fn description_key() -> Seq<char> {
    "description"@
}

/// The key of a task's completion flag.
pub open spec fn completed_key() -> Seq<char> {
    "completed"@
}

/// The object that stores a task.
pub open spec fn record_of(t: TaskView) -> JsonModel {
    JsonModel::Object(
        seq![
            (id_key(), JsonModel::Number(NumberModel::Unsigned(t.id as u64))),
            (description_key(), JsonModel::Text(t.task)),
            (completed_key(), JsonModel::Bool(t.completed)),
        ],
    )
}

/// The document that stores a list: the array of its tasks' objects, in
/// list order.
pub open spec fn document_of(list: Seq<TaskView>) -> JsonModel {
    JsonModel::Array(list.map_values(|t: TaskView| record_of(t)))
}

/// The number of a document that is an integer from 0 to `u64::MAX`.
pub open spec fn unsigned_of(document: Option<JsonModel>) -> Option<u64> {
    match document {
        Some(JsonModel::Number(NumberModel::Unsigned(n))) => Some(n),
        _ => None,
    }
}

/// The text of a document that is a string.
pub open spec fn text_of(document: Option<JsonModel>) -> Option<Seq<char>> {
    match document {
        Some(JsonModel::Text(text)) => Some(text),
        _ => None,
    }
}

/// The truth value of a document that is one.
pub open spec fn truth_of(document: Option<JsonModel>) -> Option<bool> {
    match document {
        Some(JsonModel::Bool(truth)) => Some(truth),
        _ => None,
    }
}

/// The task with the given fields, if none is missing and the identifier
/// is within `usize`.
pub open spec fn task_from(id: Option<u64>, task: Option<Seq<char>>, completed: Option<bool>) -> Option<
    TaskView,
> {
    if id is Some && task is Some && completed is Some && id.unwrap() <= usize::MAX {
        Some(TaskView { id: id.unwrap() as nat, task: task.unwrap(), completed: completed.unwrap() })
    } else {
        None
    }
}

/// The task that a document stores: the document is an object whose member
/// `id` is an integer within `usize`, whose member `description` is a
/// string and whose member `completed` is a truth value. Other members
/// count for nothing.
pub open spec fn task_of(record: JsonModel) -> Option<TaskView> {
    task_from(
        unsigned_of(member_of(record, id_key())),
        text_of(member_of(record, description_key())),
        truth_of(member_of(record, completed_key())),
    )
}

/// The list that a document stores: the document is an array, and each of
/// its items stores a task.
pub open spec fn tasks_of(document: JsonModel) -> Option<Seq<TaskView>> {
    match document {
        JsonModel::Array(records) => if forall|i: int|
            0 <= i < records.len() ==> task_of(#[trigger] records[i]) is Some {
            Some(records.map_values(|record: JsonModel| task_of(record).unwrap()))
        } else {
            None
        },
        _ => None,
    }
}

/// What loading gives for a parsed text: the list that the document
/// stores, and `CorruptState` where the text is no document or the document
/// stores no list.
pub open spec fn loaded_from(parsed: Option<JsonModel>) -> Result<Seq<TaskView>, StoreError> {
    match parsed {
        Some(document) => match tasks_of(document) {
            Some(list) => Ok(list),
            None => Err(StoreError::CorruptState),
        },
        None => Err(StoreError::CorruptState),
    }
}

/// What loading gives for what was found: the empty list where there is
/// no storage, `IoFailure` where it could not be read, else what its text
/// gives.
pub open spec fn loaded(found: Stored) -> Result<Seq<TaskView>, StoreError> {
    match found {
        Stored::Missing => Ok(Seq::empty()),
        Stored::Unreadable => Err(StoreError::IoFailure),
        Stored::Text(text) => loaded_from(parsed_json(text@)),
    }
}

/// What saving gives for a written document: its text, and `IoFailure`
/// where the document could not be written.
pub open spec fn saved_from(written: Option<Seq<char>>) -> Result<Seq<char>, StoreError> {
    match written {
        Some(text) => Ok(text),
        None => Err(StoreError::IoFailure),
    }
}

/// A list or an error, with the list as what it stands for.
pub open spec fn list_outcome(outcome: Result<Vec<TodoItem>, StoreError>) -> Result<
    Seq<TaskView>,
    StoreError,
> {
    match outcome {
        Ok(tasks) => Ok(list_view(tasks@)),
        Err(error) => Err(error),
    }
}

/// A text or an error, with the text as a sequence of characters.
pub open spec fn text_outcome(outcome: Result<String, StoreError>) -> Result<Seq<char>, StoreError> {
    match outcome {
        Ok(text) => Ok(text@),
        Err(error) => Err(error),
    }
}

/// The three keys differ from each other.
pub proof fn lemma_keys_differ()
    ensures
        id_key() != description_key(),
        id_key() != completed_key(),
        description_key() != completed_key(),
{
    reveal_strlit("id");
    reveal_strlit("description");
    reveal_strlit("completed");
    assert(id_key().len() == 2);
    assert(description_key().len() == 11);
    assert(completed_key().len() == 9);
}

/// The object that stores a task stores that task: reading undoes writing,
/// as far as the members go.
pub proof fn lemma_record_stores_its_task(t: TaskView)
    requires
        t.id <= usize::MAX,
    ensures
        task_of(record_of(t)) == Some(t),
{
    lemma_keys_differ();
    reveal_with_fuel(member_at, 4);
}

/// The document that stores a list stores that list: same tasks, same
/// order.
pub proof fn lemma_document_stores_its_list(list: Seq<TaskView>)
    requires
        forall|i: int| 0 <= i < list.len() ==> (#[trigger] list[i]).id <= usize::MAX,
    ensures
        tasks_of(document_of(list)) == Some(list),
        loaded_from(Some(document_of(list))) == Ok::<Seq<TaskView>, StoreError>(list),
{
    let records = list.map_values(|t: TaskView| record_of(t));
    assert forall|i: int| 0 <= i < records.len() implies task_of(#[trigger] records[i]) == Some(
        list[i],
    ) by {
        lemma_record_stores_its_task(list[i]);
    }
    assert(records.map_values(|record: JsonModel| task_of(record).unwrap()) =~= list);
}

/// The task with the given fields: `None` if one is missing, or if the
/// identifier does not fit.
pub fn task_from_fields(id: Option<u64>, task: Option<&str>, completed: Option<bool>) -> (item:
    Option<TodoItem>)
    ensures
        match item {
            Some(item) => task_from(
                id,
                match task {
                    Some(text) => Some(text@),
                    None => None,
                },
                completed,
            ) == Some(item@),
            None => task_from(
                id,
                match task {
                    Some(text) => Some(text@),
                    None => None,
                },
                completed,
            ) is None,
        },
{
    match (id, task, completed) {
        (Some(id), Some(task), Some(completed)) => {
            if id <= usize::MAX as u64 {
                Some(TodoItem { id: id as usize, task: task.to_owned(), completed })
            } else {
                None
            }
        },
        _ => None,
    }
}

/// The task that a document stores, `None` if it stores none.
pub fn task_from_record(record: &serde_json::Value) -> (item: Option<TodoItem>)
    ensures
        match item {
            Some(item) => task_of(json_model(*record)) == Some(item@),
            None => task_of(json_model(*record)) is None,
        },
{
    let id = match member(record, "id") {
        Some(value) => value.as_u64(),
        None => None,
    };
    let task = match member(record, "description") {
        Some(value) => value.as_str(),
        None => None,
    };
    let completed = match member(record, "completed") {
        Some(value) => value.as_bool(),
        None => None,
    };
    task_from_fields(id, task, completed)
}

/// The list that a document stores, `None` if it stores none.
pub fn tasks_from_document(document: &serde_json::Value) -> (tasks: Option<Vec<TodoItem>>)
    ensures
        match tasks {
            Some(tasks) => tasks_of(json_model(*document)) == Some(list_view(tasks@)),
            None => tasks_of(json_model(*document)) is None,
        },
{
    match document.as_array() {
        None => None,
        Some(records) => {
            let mut tasks: Vec<TodoItem> = Vec::new();
            let mut i: usize = 0;
            while i < records.len()
                invariant
                    0 <= i <= records.len(),
                    tasks.len() == i,
                    json_model(*document) == JsonModel::Array(json_models(records@)),
                    forall|j: int|
                        0 <= j < i ==> task_of(#[trigger] json_models(records@)[j]) == Some(
                            tasks@[j]@,
                        ),
                decreases records.len() - i,
            {
                match task_from_record(&records[i]) {
                    Some(item) => {
                        tasks.push(item);
                    },
                    None => {
                        assert(task_of(json_models(records@)[i as int]) is None);
                        return None;
                    },
                }
                i += 1;
            }
            proof {
                assert(json_models(records@).map_values(
                    |record: JsonModel| task_of(record).unwrap(),
                ) =~= list_view(tasks@));
            }
            Some(tasks)
        },
    }
}

/// The list that a parsed text stores, or `CorruptState`.
pub fn tasks_from_parsed(parsed: Result<serde_json::Value, serde_json::Error>) -> (outcome: Result<
    Vec<TodoItem>,
    StoreError,
>)
    ensures
        list_outcome(outcome) == loaded_from(
            match parsed {
                Ok(document) => Some(json_model(document)),
                Err(_) => None,
            },
        ),
{
    match parsed {
        Ok(document) => match tasks_from_document(&document) {
            Some(tasks) => Ok(tasks),
            None => Err(StoreError::CorruptState),
        },
        Err(_) => Err(StoreError::CorruptState),
    }
}

/// Loads the list from what was found in the storage. Storage that does
/// not exist yet gives the empty list, and is no error.
pub fn read_todos(found: &Stored) -> (outcome: Result<Vec<TodoItem>, StoreError>)
    ensures
        list_outcome(outcome) == loaded(*found),
{
    match found {
        Stored::Missing => {
            let tasks: Vec<TodoItem> = Vec::new();
            assert(list_view(tasks@) =~= Seq::<TaskView>::empty());
            Ok(tasks)
        },
        Stored::Unreadable => Err(StoreError::IoFailure),
        Stored::Text(text) => tasks_from_parsed(parse(text.as_str())),
    }
}

/// The document that stores the list.
pub fn document_from_tasks(todos: &[TodoItem]) -> (document: serde_json::Value)
    ensures
        json_model(document) == document_of(list_view(todos@)),
{
    let mut records: Vec<serde_json::Value> = Vec::new();
    let mut i: usize = 0;
    while i < todos.len()
        invariant
            0 <= i <= todos.len(),
            records.len() == i,
            forall|j: int| 0 <= j < i ==> json_model(#[trigger] records@[j]) == record_of(todos@[j]@),
        decreases todos.len() - i,
    {
        let item = &todos[i];
        let mut members: Vec<(String, serde_json::Value)> = Vec::new();
        members.push(("id".to_owned(), number_value(item.id as u64)));
        members.push(("description".to_owned(), text_value(item.task.clone())));
        members.push(("completed".to_owned(), bool_value(item.completed)));
        proof {
            lemma_keys_differ();
            assert(member_models(members@) =~= record_of(item@)->Object_0);
        }
        records.push(object_value(members));
        i += 1;
    }
    proof {
        assert(json_models(records@) =~= list_view(todos@).map_values(|t: TaskView| record_of(t)));
    }
    array_value(records)
}

/// The text of a written document, or `IoFailure`.
pub fn text_from_written(written: Result<String, serde_json::Error>) -> (outcome: Result<
    String,
    StoreError,
>)
    ensures
        text_outcome(outcome) == saved_from(
            match written {
                Ok(text) => Some(text@),
                Err(_) => None,
            },
        ),
{
    match written {
        Ok(text) => Ok(text),
        Err(_) => Err(StoreError::IoFailure),
    }
}

/// The text that stores the list: the whole list as indented JSON, one
/// object per task with the members `id`, `description` and `completed` in
/// this order. It is meant to replace what the storage held.
pub fn write_todos(todos: &[TodoItem]) -> (outcome: Result<String, StoreError>)
    ensures
        text_outcome(outcome) == saved_from(pretty_json(document_of(list_view(todos@)))),
{
    let document = document_from_tasks(todos);
    text_from_written(pretty(&document))
}

} // verus!
