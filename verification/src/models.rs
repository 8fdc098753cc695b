//! The records of the service: task kinds, workers, tasks and results.
//!
//! Each record has a view that holds its texts and lists as sequences; the
//! contracts of the rest of the library speak of those views.

use crate::ident::Id;
use crate::status::TaskStatus;
use crate::time_format::Timestamp;
use vstd::prelude::*;

verus! {

/// A JSON document, held as its text. Every document is made from a text
/// that is JSON, so every document can be written as a message body.
#[derive(Debug, PartialEq, Eq)]
pub struct Json {
    text: String,
}

impl View for Json {
    type V = Seq<char>;

    closed spec fn view(&self) -> Seq<char> {
        self.text@
    }
}

/// The bytes that `serde_json` writes for a document that may be absent, where
/// its text is JSON.
pub uninterp spec fn json_payload(document: Option<Seq<char>>) -> Option<Seq<u8>>;

/// The bytes of the JSON text `null`.
pub open spec fn null_bytes() -> Seq<u8> {
    seq![0x6eu8, 0x75u8, 0x6cu8, 0x6cu8]
}

/// The text that may be absent, as a sequence.
pub open spec fn text_view(text: Option<&str>) -> Option<Seq<char>> {
    match text {
        Some(given) => Some(given@),
        None => None,
    }
}

/// Reads the text with `serde_json::from_str` and writes the value, or the
/// absent value, with `serde_json::to_vec`. The bytes depend on the text alone;
/// there are none where the text is not JSON or cannot be written. The absent
/// value is written as `null`.
#[verifier::external_body]
fn encode_document(text: Option<&str>) -> (r: Option<Vec<u8>>)
    ensures
        match r {
            Some(bytes) => json_payload(text_view(text)) == Some(bytes@),
            None => json_payload(text_view(text)) is None,
        },
        text is None ==> r is Some && r->Some_0@ == null_bytes(),
{
    let value: Option<serde_json::Value> = match text {
        Some(given) => Some(serde_json::from_str(given).ok()?),
        None => None,
    };
    serde_json::to_vec(&value).ok()
}

impl Clone for Json {
    fn clone(&self) -> (r: Self)
        ensures
            r@ == self@,
    {
        proof {
            use_type_invariant(self);
        }
        Json { text: self.text.clone() }
    }
}

impl Json {
    /// Whether the text of the document is JSON.
    #[verifier::type_invariant]
    spec fn is_json(self) -> bool {
        json_payload(Some(self.text@)) is Some
    }

    /// The document with the given text, where the text is JSON.
    pub fn new(text: String) -> (r: Option<Json>)
        ensures
            match r {
                Some(json) => json@ == text@ && json_payload(Some(text@)) is Some,
                None => json_payload(Some(text@)) is None,
            },
    {
        match encode_document(Some(text.as_str())) {
            Some(_) => Some(Json { text }),
            None => None,
        }
    }

    /// The text of the document.
    pub fn as_str(&self) -> (r: &str)
        ensures
            r@ == self@,
    {
        self.text.as_str()
    }
}

/// The message body for a document that may be absent: the bytes that its
/// text is written as, and the bytes of `null` where it is absent.
pub fn payload(document: &Option<Json>) -> (r: Vec<u8>)
    ensures
        json_payload(document_view(*document)) == Some(r@),
        document is None ==> r@ == null_bytes(),
{
    let text = match document {
        Some(json) => {
            proof {
                use_type_invariant(json);
            }
            Some(json.text.as_str())
        },
        None => None,
    };
    match encode_document(text) {
        Some(bytes) => bytes,
        None => {
            assert(false);
            Vec::new()
        },
    }
}

/// The text of a document that may be absent.
pub open spec fn document_view(document: Option<Json>) -> Option<Seq<char>> {
    match document {
        Some(json) => Some(json@),
        None => None,
    }
}

/// Copies a document that may be absent.
pub fn clone_document(document: &Option<Json>) -> (r: Option<Json>)
    ensures
        document_view(r) == document_view(*document),
{
    match document {
        Some(json) => Some(json.clone()),
        None => None,
    }
}

/// A named category of work, shared by tasks and workers.
#[derive(Debug, PartialEq, Eq)]
pub struct TaskKind {
    pub id: Id,
    pub name: String,
}

/// What a task kind holds.
pub ghost struct TaskKindView {
    pub id: Id,
    pub name: Seq<char>,
}

impl View for TaskKind {
    type V = TaskKindView;

    open spec fn view(&self) -> TaskKindView {
        TaskKindView { id: self.id, name: self.name@ }
    }
}

impl Clone for TaskKind {
    fn clone(&self) -> (r: Self)
        ensures
            r@ == self@,
    {
        TaskKind { id: self.id, name: self.name.clone() }
    }
}

impl TaskKind {
    /// A task kind with the given name and a fresh random identifier.
    pub fn new(name: String) -> (r: TaskKind)
        ensures
            r@.name == name@,
            crate::ident::is_random_form(r.id.value),
    {
        TaskKind { id: Id::random(), name }
    }
}

/// The views of a list of task kinds, in order.
pub open spec fn kinds_view(kinds: Seq<TaskKind>) -> Seq<TaskKindView> {
    Seq::new(kinds.len(), |i: int| kinds[i]@)
}

/// Copies a list of task kinds.
pub fn clone_kinds(kinds: &Vec<TaskKind>) -> (r: Vec<TaskKind>)
    ensures
        kinds_view(r@) == kinds_view(kinds@),
{
    let mut copy: Vec<TaskKind> = Vec::new();
    let mut i: usize = 0;
    while i < kinds.len()
        invariant
            i <= kinds.len(),
            copy.len() == i,
            forall|j: int| 0 <= j < i ==> copy[j]@ == kinds[j]@,
        decreases kinds.len() - i,
    {
        copy.push(kinds[i].clone());
        i = i + 1;
    }
    assert(kinds_view(copy@) =~= kinds_view(kinds@));
    copy
}

/// The result of one attempt at a task: an output or an error.
#[derive(Debug, PartialEq, Eq)]
pub struct TaskResult {
    pub task_id: Id,
    pub output_data: Option<Json>,
    pub error_data: Option<Json>,
    pub worker_id: Id,
    pub created_at: Timestamp,
}

/// What a result holds.
pub ghost struct TaskResultView {
    pub task_id: Id,
    pub output_data: Option<Seq<char>>,
    pub error_data: Option<Seq<char>>,
    pub worker_id: Id,
    pub created_at: Timestamp,
}

impl View for TaskResult {
    type V = TaskResultView;

    open spec fn view(&self) -> TaskResultView {
        TaskResultView {
            task_id: self.task_id,
            output_data: document_view(self.output_data),
            error_data: document_view(self.error_data),
            worker_id: self.worker_id,
            created_at: self.created_at,
        }
    }
}

impl Clone for TaskResult {
    fn clone(&self) -> (r: Self)
        ensures
            r@ == self@,
    {
        TaskResult {
            task_id: self.task_id,
            output_data: clone_document(&self.output_data),
            error_data: clone_document(&self.error_data),
            worker_id: self.worker_id,
            created_at: self.created_at,
        }
    }
}

impl TaskResultView {
    /// A result carries an output or an error, never both and never neither.
    pub open spec fn well_formed(self) -> bool {
        self.output_data is Some != self.error_data is Some
    }
}

/// The view of a result that may be absent.
pub open spec fn result_view(result: Option<TaskResult>) -> Option<TaskResultView> {
    match result {
        Some(found) => Some(found@),
        None => None,
    }
}

/// A unit of deferred work.
#[derive(Debug, PartialEq, Eq)]
pub struct TaskInstance {
    pub id: Id,
    pub task_kind: TaskKind,
    pub input_data: Option<Json>,
    pub status: TaskStatus,
    pub created_at: Timestamp,
    pub assigned_to: Option<Id>,
    pub result: Option<TaskResult>,
}

/// What a task holds.
pub ghost struct TaskInstanceView {
    pub id: Id,
    pub task_kind: TaskKindView,
    pub input_data: Option<Seq<char>>,
    pub status: TaskStatus,
    pub created_at: Timestamp,
    pub assigned_to: Option<Id>,
    pub result: Option<TaskResultView>,
}

impl View for TaskInstance {
    type V = TaskInstanceView;

    open spec fn view(&self) -> TaskInstanceView {
        TaskInstanceView {
            id: self.id,
            task_kind: self.task_kind@,
            input_data: document_view(self.input_data),
            status: self.status,
            created_at: self.created_at,
            assigned_to: self.assigned_to,
            result: result_view(self.result),
        }
    }
}

impl Clone for TaskInstance {
    fn clone(&self) -> (r: Self)
        ensures
            r@ == self@,
    {
        let result = match &self.result {
            Some(found) => Some(found.clone()),
            None => None,
        };
        TaskInstance {
            id: self.id,
            task_kind: self.task_kind.clone(),
            input_data: clone_document(&self.input_data),
            status: self.status,
            created_at: self.created_at,
            assigned_to: self.assigned_to,
            result,
        }
    }
}

/// An external process that performs tasks of the kinds it registered for.
#[derive(Debug, PartialEq, Eq)]
pub struct Worker {
    pub id: Id,
    pub name: String,
    pub registered_at: Timestamp,
    pub task_kind: Vec<TaskKind>,
    pub active: bool,
}

/// What a worker holds.
pub ghost struct WorkerView {
    pub id: Id,
    pub name: Seq<char>,
    pub registered_at: Timestamp,
    pub task_kind: Seq<TaskKindView>,
    pub active: bool,
}

impl View for Worker {
    type V = WorkerView;

    open spec fn view(&self) -> WorkerView {
        WorkerView {
            id: self.id,
            name: self.name@,
            registered_at: self.registered_at,
            task_kind: kinds_view(self.task_kind@),
            active: self.active,
        }
    }
}

impl Clone for Worker {
    fn clone(&self) -> (r: Self)
        ensures
            r@ == self@,
    {
        Worker {
            id: self.id,
            name: self.name.clone(),
            registered_at: self.registered_at,
            task_kind: clone_kinds(&self.task_kind),
            active: self.active,
        }
    }
}

impl WorkerView {
    /// Whether the worker registered for a kind of the given name. Kinds are
    /// compared by name alone, whatever their identifiers.
    pub open spec fn handles(self, kind_name: Seq<char>) -> bool {
        exists|i: int| 0 <= i < self.task_kind.len() && #[trigger] self.task_kind[i].name == kind_name
    }
}

impl Worker {
    /// An active worker with a fresh random identifier, registered now.
    pub fn new(name: String, task_kind: Vec<TaskKind>) -> (r: Worker)
        ensures
            r@.name == name@,
            r@.task_kind == kinds_view(task_kind@),
            r@.active,
            crate::ident::is_random_form(r.id.value),
    {
        Worker { id: Id::random(), name, registered_at: Timestamp::now(), task_kind, active: true }
    }

    /// Whether the worker can take the task: one of its kinds has the name of
    /// the task's kind.
    pub fn can_handle(&self, task: &TaskInstance) -> (r: bool)
        ensures
            r == self@.handles(task@.task_kind.name),
    {
        let mut i: usize = 0;
        while i < self.task_kind.len()
            invariant
                i <= self.task_kind.len(),
                forall|j: int| 0 <= j < i ==> self.task_kind[j].name@ != task.task_kind.name@,
            decreases self.task_kind.len() - i,
        {
            if self.task_kind[i].name == task.task_kind.name {
                assert(self@.task_kind[i as int].name == task@.task_kind.name);
                return true;
            }
            i = i + 1;
        }
        assert forall|j: int| 0 <= j < self@.task_kind.len() implies #[trigger] self@.task_kind[j].name
            != task@.task_kind.name by {
            assert(self@.task_kind[j] == self.task_kind[j]@);
        }
        false
    }
}

} // verus!
