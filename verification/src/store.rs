//! The store of record: its tables as a mathematical model, and the three
//! repositories that read and change them.
//!
//! The model holds the rows of each table in the order in which they were
//! inserted. Every operation is stated as a function from the tables before it
//! to the tables after it. An operation that fails leaves the tables as they
//! were.

use crate::ident::Id;
use crate::models::{Json, TaskInstance, TaskKind, TaskResult, Worker};
use crate::status::TaskStatus;
use crate::time_format::Timestamp;
use vstd::prelude::*;

verus! {

/// Why the store could not do what was asked.
#[derive(Clone, Copy, Debug, PartialEq, Eq, Structural)]
pub enum StoreError {
    /// The row that was asked for does not exist.
    NotFound,
    /// The store failed or refused the change.
    Failed,
}

impl StoreError {
    /// The words for the error.
    pub open spec fn text(self) -> Seq<char> {
        match self {
            StoreError::NotFound => "no rows returned"@,
            StoreError::Failed => "the store failed"@,
        }
    }

    /// The words for the error.
    pub fn message(self) -> (r: &'static str)
        ensures
            r@ == self.text(),
    {
        match self {
            StoreError::NotFound => "no rows returned",
            StoreError::Failed => "the store failed",
        }
    }
}

/// A row of the table of workers, with the kinds it is linked to.
pub ghost struct WorkerRow {
    pub id: Id,
    pub name: Seq<char>,
    pub registered_at: Timestamp,
    pub active: bool,
    pub kinds: Seq<Id>,
}

/// A row of the table of tasks.
pub ghost struct TaskRow {
    pub id: Id,
    pub kind_id: Id,
    pub input_data: Option<Seq<char>>,
    pub status: TaskStatus,
    pub assigned_to: Option<Id>,
    pub created_at: Timestamp,
}

/// A row of the table of heartbeats.
pub ghost struct HeartbeatRow {
    pub worker_id: Id,
    pub heartbeat_time: Timestamp,
}

/// The tables of the store.
pub ghost struct Tables {
    pub kinds: Seq<crate::models::TaskKindView>,
    pub workers: Seq<WorkerRow>,
    pub heartbeats: Seq<HeartbeatRow>,
    pub tasks: Seq<TaskRow>,
    pub results: Seq<crate::models::TaskResultView>,
}

/// The position, among the first `upto` rows, of the latest row at which
/// `found` holds: the one with the greatest instant and, of several with that
/// instant, the one that was inserted last. It is -1 where `found` holds of
/// none.
pub open spec fn latest_position<T>(
    rows: Seq<T>,
    found: spec_fn(T) -> bool,
    instant: spec_fn(T) -> Timestamp,
    upto: int,
) -> int
    decreases upto,
{
    if upto <= 0 || upto > rows.len() {
        -1
    } else {
        let earlier = latest_position(rows, found, instant, upto - 1);
        if found(rows[upto - 1]) && (earlier < 0 || instant(rows[earlier]).unix_nanos <= instant(
            rows[upto - 1],
        ).unix_nanos) {
            upto - 1
        } else {
            earlier
        }
    }
}

/// The first position at or after `from` at which `found` holds, or the
/// number of rows.
pub open spec fn first_position<T>(rows: Seq<T>, found: spec_fn(T) -> bool, from: int) -> int
    decreases rows.len() - from,
{
    if from < 0 || from >= rows.len() {
        rows.len() as int
    } else if found(rows[from]) {
        from
    } else {
        first_position(rows, found, from + 1)
    }
}

/// Before the first position at which `found` holds it holds nowhere, and at
/// that position it holds; a position where it holds and before which it holds
/// nowhere is the first.
pub proof fn lemma_first_position<T>(rows: Seq<T>, found: spec_fn(T) -> bool, from: int)
    requires
        0 <= from <= rows.len(),
    ensures
        from <= first_position(rows, found, from) <= rows.len(),
        forall|j: int| from <= j < first_position(rows, found, from) ==> !found(#[trigger] rows[j]),
        first_position(rows, found, from) < rows.len() ==> found(
            rows[first_position(rows, found, from)],
        ),
        forall|position: int|
            from <= position < rows.len() && found(rows[position]) && (forall|j: int|
                from <= j < position ==> !found(#[trigger] rows[j])) ==> first_position(
                rows,
                found,
                from,
            ) == position,
    decreases rows.len() - from,
{
    if from < rows.len() && !found(rows[from]) {
        lemma_first_position(rows, found, from + 1);
    }
}

/// The first row for which `found` holds, if there is one.
pub open spec fn first_row<T>(rows: Seq<T>, found: spec_fn(T) -> bool) -> Option<T> {
    let position = first_position(rows, found, 0);
    if position < rows.len() {
        Some(rows[position])
    } else {
        None
    }
}

/// The latest row for which `found` holds, if there is one.
pub open spec fn latest_row<T>(
    rows: Seq<T>,
    found: spec_fn(T) -> bool,
    instant: spec_fn(T) -> Timestamp,
) -> Option<T> {
    let position = latest_position(rows, found, instant, rows.len() as int);
    if position >= 0 {
        Some(rows[position])
    } else {
        None
    }
}

impl Tables {
    /// The store with no rows.
    pub open spec fn empty() -> Tables {
        Tables {
            kinds: Seq::empty(),
            workers: Seq::empty(),
            heartbeats: Seq::empty(),
            tasks: Seq::empty(),
            results: Seq::empty(),
        }
    }

    /// The task kind with the given name.
    pub open spec fn kind_named(self, name: Seq<char>) -> Option<crate::models::TaskKindView> {
        first_row(self.kinds, kind_is_named(name))
    }

    /// The task kind with the given identifier.
    pub open spec fn kind_with_id(self, id: Id) -> Option<crate::models::TaskKindView> {
        first_row(self.kinds, kind_has_id(id))
    }

    /// The row of the worker with the given identifier.
    pub open spec fn worker_row(self, id: Id) -> Option<WorkerRow> {
        first_row(self.workers, worker_has_id(id))
    }

    /// The row of the task with the given identifier.
    pub open spec fn task_row(self, id: Id) -> Option<TaskRow> {
        first_row(self.tasks, task_has_id(id))
    }

    /// The most recent result of the given task, by the instant of its
    /// creation.
    pub open spec fn latest_result(self, task_id: Id) -> Option<crate::models::TaskResultView> {
        latest_row(self.results, result_is_for(task_id), result_instant())
    }

    /// The most recent heartbeat of the given worker, by its instant.
    pub open spec fn latest_heartbeat(self, worker_id: Id) -> Option<HeartbeatRow> {
        latest_row(self.heartbeats, heartbeat_is_for(worker_id), heartbeat_instant())
    }

    /// The kinds that the given identifiers name, in their order. An
    /// identifier that names no kind is passed over.
    pub open spec fn kinds_joined(self, ids: Seq<Id>) -> Seq<crate::models::TaskKindView>
        decreases ids.len(),
    {
        if ids.len() == 0 {
            Seq::empty()
        } else {
            let earlier = self.kinds_joined(ids.drop_last());
            match self.kind_with_id(ids.last()) {
                Some(kind) => earlier.push(kind),
                None => earlier,
            }
        }
    }

    /// The worker that a row of the table of workers stands for.
    pub open spec fn worker_of(self, row: WorkerRow) -> crate::models::WorkerView {
        crate::models::WorkerView {
            id: row.id,
            name: row.name,
            registered_at: row.registered_at,
            task_kind: self.kinds_joined(row.kinds),
            active: row.active,
        }
    }

    /// The task that a row of the table of tasks stands for, with its kind
    /// and, where it is asked for, its latest result.
    pub open spec fn task_of(self, row: TaskRow, include_result: bool) -> crate::models::TaskInstanceView
        recommends
            self.kind_with_id(row.kind_id) is Some,
    {
        crate::models::TaskInstanceView {
            id: row.id,
            task_kind: self.kind_with_id(row.kind_id)->Some_0,
            input_data: row.input_data,
            status: row.status,
            created_at: row.created_at,
            assigned_to: row.assigned_to,
            result: if include_result {
                self.latest_result(row.id)
            } else {
                None
            },
        }
    }

    /// Whether `kind` is what asking for a kind of its name gives: the kind of
    /// that name where there is one, else a kind whose identifier is not taken.
    pub open spec fn kind_resolved(self, kind: crate::models::TaskKindView) -> bool {
        match self.kind_named(kind.name) {
            Some(known) => kind == known,
            None => self.kind_with_id(kind.id) is None,
        }
    }

    /// The tables once a kind of the name of `kind` is known: as they were
    /// where it was known, with the kind appended where it was not.
    pub open spec fn with_kind(self, kind: crate::models::TaskKindView) -> Tables {
        if self.kind_named(kind.name) is Some {
            self
        } else {
            Tables { kinds: self.kinds.push(kind), ..self }
        }
    }

    /// Whether `task` is what creating a task of the given kind and input
    /// gives: pending, with no assignee and no result, of that kind, and with an
    /// identifier that is not taken.
    pub open spec fn task_created(
        self,
        kind_id: Id,
        input_data: Option<Seq<char>>,
        task: crate::models::TaskInstanceView,
    ) -> bool {
        &&& self.kind_with_id(kind_id) == Some(task.task_kind)
        &&& self.task_row(task.id) is None
        &&& task.input_data == input_data
        &&& task.status == TaskStatus::Pending
        &&& task.assigned_to is None
        &&& task.result is None
    }

    /// The tables with the task appended as it is created.
    pub open spec fn with_task(self, kind_id: Id, task: crate::models::TaskInstanceView) -> Tables {
        Tables {
            tasks: self.tasks.push(
                TaskRow {
                    id: task.id,
                    kind_id,
                    input_data: task.input_data,
                    status: TaskStatus::Pending,
                    assigned_to: None,
                    created_at: task.created_at,
                },
            ),
            ..self
        }
    }

    /// The tables with every task of the given identifier replaced by what
    /// `change` makes of it.
    pub open spec fn with_task_changed(self, id: Id, change: spec_fn(TaskRow) -> TaskRow) -> Tables {
        Tables {
            tasks: self.tasks.map_values(
                |row: TaskRow|
                    if row.id == id {
                        change(row)
                    } else {
                        row
                    },
            ),
            ..self
        }
    }

    /// The tables after the task was assigned to a worker: it is queued.
    pub open spec fn with_task_assigned(self, task_id: Id, worker_id: Id) -> Tables {
        self.with_task_changed(
            task_id,
            |row: TaskRow| TaskRow { assigned_to: Some(worker_id), status: TaskStatus::Queued, ..row },
        )
    }

    /// The tables after the status of the task was set.
    pub open spec fn with_task_status(self, task_id: Id, status: TaskStatus) -> Tables {
        self.with_task_changed(task_id, |row: TaskRow| TaskRow { status, ..row })
    }

    /// The tables after a result was uploaded: the task has the status that
    /// goes with the result, and the result is appended to its table.
    pub open spec fn with_result(self, result: crate::models::TaskResultView) -> Tables {
        let status = if result.error_data is Some {
            TaskStatus::Failed
        } else {
            TaskStatus::Completed
        };
        Tables { results: self.results.push(result), ..self.with_task_status(result.task_id, status) }
    }

    /// The tables with every worker of the given identifier replaced by what
    /// `change` makes of it.
    pub open spec fn with_worker_changed(self, id: Id, change: spec_fn(WorkerRow) -> WorkerRow) -> Tables {
        Tables {
            workers: self.workers.map_values(
                |row: WorkerRow|
                    if row.id == id {
                        change(row)
                    } else {
                        row
                    },
            ),
            ..self
        }
    }

    /// The table of kinds after each of the given kinds that is missing, by
    /// its identifier, was inserted, in order.
    pub open spec fn kinds_with(
        self,
        kinds: Seq<crate::models::TaskKindView>,
    ) -> Seq<crate::models::TaskKindView>
        decreases kinds.len(),
    {
        if kinds.len() == 0 {
            self.kinds
        } else {
            let earlier = self.kinds_with(kinds.drop_last());
            let kind = kinds.last();
            if first_position(earlier, kind_has_id(kind.id), 0) < earlier.len() {
                earlier
            } else {
                earlier.push(kind)
            }
        }
    }

    /// Whether the given kinds can be linked to one worker: inserting the
    /// missing ones gives no name twice, and no kind is linked twice.
    pub open spec fn kinds_acceptable(self, kinds: Seq<crate::models::TaskKindView>) -> bool {
        &&& distinct_names(self.kinds_with(kinds))
        &&& kind_ids(kinds).no_duplicates()
    }

    /// The tables after a worker was registered with the given kinds at the
    /// given instant.
    ///
    /// A worker that is new is inserted as registered at that instant; one that
    /// is known keeps the instant of its first registration and takes the new
    /// name. Either way the worker is active afterwards, and its kinds are
    /// replaced by the given ones.
    pub open spec fn with_worker_registered(
        self,
        id: Id,
        name: Seq<char>,
        kinds: Seq<crate::models::TaskKindView>,
        now: Timestamp,
    ) -> Tables {
        let linked = kind_ids(kinds);
        let workers = match self.worker_row(id) {
            Some(_) => self.with_worker_changed(
                id,
                |row: WorkerRow| WorkerRow { name, kinds: linked, active: true, ..row },
            ).workers,
            None => self.workers.push(
                WorkerRow { id, name, registered_at: now, active: true, kinds: linked },
            ),
        };
        Tables { kinds: self.kinds_with(kinds), workers, ..self }
    }

    /// Whether the tables keep what the schema demands: no identifier twice in
    /// a table, no kind name twice, every task of a kind that exists, every
    /// worker linked to kinds that exist, every result for a task that exists
    /// and with either an output or an error.
    pub open spec fn well_formed(self) -> bool {
        &&& forall|i: int, j: int|
            #![trigger self.kinds[i], self.kinds[j]]
            0 <= i < j < self.kinds.len() ==> self.kinds[i].id != self.kinds[j].id
        &&& distinct_names(self.kinds)
        &&& forall|i: int, j: int|
            #![trigger self.workers[i], self.workers[j]]
            0 <= i < j < self.workers.len() ==> self.workers[i].id != self.workers[j].id
        &&& forall|i: int, j: int|
            #![trigger self.tasks[i], self.tasks[j]]
            0 <= i < j < self.tasks.len() ==> self.tasks[i].id != self.tasks[j].id
        &&& forall|i: int|
            0 <= i < self.tasks.len() ==> self.kind_with_id((#[trigger] self.tasks[i]).kind_id) is Some
        &&& forall|i: int, j: int|
            0 <= i < self.workers.len() && 0 <= j < self.workers[i].kinds.len() ==> self.kind_with_id(
                #[trigger] self.workers[i].kinds[j],
            ) is Some
        &&& forall|i: int|
            0 <= i < self.results.len() ==> (#[trigger] self.results[i]).well_formed()
                && self.task_row(self.results[i].task_id) is Some
    }

    /// Whether a task of the given identifier has no assignee.
    pub open spec fn has_unassigned(self, task_id: Id) -> bool {
        exists|i: int|
            0 <= i < self.tasks.len() && (#[trigger] self.tasks[i]).id == task_id
                && self.tasks[i].assigned_to is None
    }

    /// Whether every task that is queued is assigned to a worker.
    pub open spec fn queued_tasks_assigned(self) -> bool {
        forall|i: int|
            0 <= i < self.tasks.len() && (#[trigger] self.tasks[i]).status is Queued
                ==> self.tasks[i].assigned_to is Some
    }
}

/// Whether a task kind has the given name.
pub open spec fn kind_is_named(name: Seq<char>) -> spec_fn(crate::models::TaskKindView) -> bool {
    |kind: crate::models::TaskKindView| kind.name == name
}

/// Whether a task kind has the given identifier.
pub open spec fn kind_has_id(id: Id) -> spec_fn(crate::models::TaskKindView) -> bool {
    |kind: crate::models::TaskKindView| kind.id == id
}

/// Whether a row is that of the worker with the given identifier.
pub open spec fn worker_has_id(id: Id) -> spec_fn(WorkerRow) -> bool {
    |row: WorkerRow| row.id == id
}

/// Whether a row is that of the task with the given identifier.
pub open spec fn task_has_id(id: Id) -> spec_fn(TaskRow) -> bool {
    |row: TaskRow| row.id == id
}

/// Whether a result belongs to the task with the given identifier.
pub open spec fn result_is_for(task_id: Id) -> spec_fn(crate::models::TaskResultView) -> bool {
    |row: crate::models::TaskResultView| row.task_id == task_id
}

/// Whether a heartbeat belongs to the worker with the given identifier.
pub open spec fn heartbeat_is_for(worker_id: Id) -> spec_fn(HeartbeatRow) -> bool {
    |row: HeartbeatRow| row.worker_id == worker_id
}

/// The instant at which a result was created.
pub open spec fn result_instant() -> spec_fn(crate::models::TaskResultView) -> Timestamp {
    |row: crate::models::TaskResultView| row.created_at
}

/// The instant of a heartbeat.
pub open spec fn heartbeat_instant() -> spec_fn(HeartbeatRow) -> Timestamp {
    |row: HeartbeatRow| row.heartbeat_time
}

/// The identifiers of a list of kinds, in order.
pub open spec fn kind_ids(kinds: Seq<crate::models::TaskKindView>) -> Seq<Id> {
    Seq::new(kinds.len(), |i: int| kinds[i].id)
}

/// Whether no two kinds have the same name.
pub open spec fn distinct_names(kinds: Seq<crate::models::TaskKindView>) -> bool {
    forall|i: int, j: int|
        #![trigger kinds[i], kinds[j]]
        0 <= i < j < kinds.len() ==> kinds[i].name != kinds[j].name
}

/// A store whose state is the tables of the model.
///
/// The contracts of the three repositories say what each operation returns
/// and how it changes the tables. They are proved of the store that this crate
/// keeps in memory. Of a store that is implemented elsewhere, over a database,
/// they are what its author answers for: nothing proves them there.
pub trait Database {
    /// The tables as they stand.
    spec fn tables(&self) -> Tables;
}

/// The repository of task kinds.
pub trait TaskKindRepository: Database {
    /// The kind with the given name, created with a fresh identifier where
    /// there is none yet.
    fn get_or_create_task_kind(&mut self, name: String) -> (r: Result<TaskKind, StoreError>)
        ensures
            match r {
                Ok(kind) => {
                    &&& kind@.name == name@
                    &&& old(self).tables().kind_resolved(kind@)
                    &&& final(self).tables() == old(self).tables().with_kind(kind@)
                },
                Err(e) => e == StoreError::Failed && final(self).tables() == old(self).tables(),
            },
    ;

    /// All task kinds, in any order.
    fn get_all_task_kinds(&self) -> (r: Result<Vec<TaskKind>, StoreError>)
        ensures
            match r {
                Ok(kinds) => crate::models::kinds_view(kinds@).to_multiset()
                    == self.tables().kinds.to_multiset(),
                Err(e) => e == StoreError::Failed,
            },
    ;
}

/// Whether a result is the one that an upload of the given data makes.
pub open spec fn uploaded(
    result: crate::models::TaskResultView,
    task_id: Id,
    worker_id: Id,
    output_data: Option<Seq<char>>,
    error_data: Option<Seq<char>>,
) -> bool {
    &&& result.task_id == task_id
    &&& result.worker_id == worker_id
    &&& result.output_data == output_data
    &&& result.error_data == error_data
}

/// The repository of tasks and their results.
pub trait TaskInstanceRepository: Database {
    /// Inserts a pending task of the given kind, with a fresh identifier, no
    /// assignee and no result. A kind that does not exist is refused.
    fn create_task(&mut self, task_kind_id: Id, input_data: Option<Json>) -> (r: Result<
        TaskInstance,
        StoreError,
    >)
        ensures
            match r {
                Ok(task) => {
                    &&& old(self).tables().task_created(
                        task_kind_id,
                        crate::models::document_view(input_data),
                        task@,
                    )
                    &&& final(self).tables() == old(self).tables().with_task(task_kind_id, task@)
                },
                Err(e) => e == StoreError::Failed && final(self).tables() == old(self).tables(),
            },
    ;

    /// The task with the given identifier, with its kind and, where it is
    /// asked for, its most recent result.
    fn get_task_by_id(&self, id: &Id, include_result: bool) -> (r: Result<TaskInstance, StoreError>)
        ensures
            match r {
                Ok(task) => self.tables().task_row(*id) matches Some(row) && task@
                    == self.tables().task_of(row, include_result),
                Err(StoreError::NotFound) => self.tables().task_row(*id) is None,
                Err(StoreError::Failed) => true,
            },
    ;

    /// Assigns the task to the worker and marks it queued. A task that does
    /// not exist is no error.
    fn assign_task_to_worker(&mut self, task_id: &Id, worker_id: &Id) -> (r: Result<(), StoreError>)
        ensures
            match r {
                Ok(_) => final(self).tables() == old(self).tables().with_task_assigned(
                    *task_id,
                    *worker_id,
                ),
                Err(e) => e == StoreError::Failed && final(self).tables() == old(self).tables(),
            },
    ;

    /// Sets the status of the task, whatever it was. A task that does not
    /// exist is no error.
    fn update_task_status(&mut self, task_id: &Id, status: TaskStatus) -> (r: Result<(), StoreError>)
        ensures
            match r {
                Ok(_) => final(self).tables() == old(self).tables().with_task_status(*task_id, status),
                Err(e) => e == StoreError::Failed && final(self).tables() == old(self).tables(),
            },
    ;

    /// Marks the task failed and inserts a result that carries the error.
    /// A task that does not exist is refused.
    fn upload_task_error(&mut self, task_id: &Id, worker_id: &Id, error: Json) -> (r: Result<
        TaskResult,
        StoreError,
    >)
        ensures
            match r {
                Ok(result) => {
                    &&& old(self).tables().task_row(*task_id) is Some
                    &&& uploaded(result@, *task_id, *worker_id, None, Some(error@))
                    &&& final(self).tables() == old(self).tables().with_result(result@)
                },
                Err(e) => e == StoreError::Failed && final(self).tables() == old(self).tables(),
            },
    ;

    /// Marks the task completed and inserts a result that carries the output.
    /// A task that does not exist is refused.
    fn upload_task_result(&mut self, task_id: &Id, worker_id: &Id, output: Json) -> (r: Result<
        TaskResult,
        StoreError,
    >)
        ensures
            match r {
                Ok(result) => {
                    &&& old(self).tables().task_row(*task_id) is Some
                    &&& uploaded(result@, *task_id, *worker_id, Some(output@), None)
                    &&& final(self).tables() == old(self).tables().with_result(result@)
                },
                Err(e) => e == StoreError::Failed && final(self).tables() == old(self).tables(),
            },
    ;
}

/// Whether two workers are the same but for the order of their kinds.
pub open spec fn same_worker(a: crate::models::WorkerView, b: crate::models::WorkerView) -> bool {
    &&& a.id == b.id
    &&& a.name == b.name
    &&& a.registered_at == b.registered_at
    &&& a.active == b.active
    &&& a.task_kind.to_multiset() == b.task_kind.to_multiset()
}

/// The repository of workers, their kinds and their heartbeats.
pub trait WorkerRepository: Database {
    /// Inserts the worker or, where it is known, gives it the new name; marks
    /// it active; links it to the given kinds in place of those it had,
    /// inserting the kinds that are missing. The worker is returned as active,
    /// with the kinds as they were given and the instant of its first
    /// registration.
    fn register_worker(&mut self, id: Id, name: String, task_kinds: Vec<TaskKind>) -> (r: Result<
        Worker,
        StoreError,
    >)
        ensures
            match r {
                Ok(worker) => {
                    let kinds = crate::models::kinds_view(task_kinds@);
                    &&& old(self).tables().kinds_acceptable(kinds)
                    &&& final(self).tables() == old(self).tables().with_worker_registered(
                        id,
                        name@,
                        kinds,
                        match old(self).tables().worker_row(id) {
                            Some(row) => row.registered_at,
                            None => worker.registered_at,
                        },
                    )
                    &&& final(self).tables().worker_row(id) matches Some(row) && row.active
                        && worker@ == (crate::models::WorkerView {
                        id,
                        name: name@,
                        registered_at: row.registered_at,
                        task_kind: kinds,
                        active: true,
                    })
                },
                Err(e) => e == StoreError::Failed && final(self).tables() == old(self).tables(),
            },
    ;

    /// The worker with the given identifier and the kinds it is linked to.
    fn get_worker_by_id(&self, id: &Id) -> (r: Result<Worker, StoreError>)
        ensures
            match r {
                Ok(worker) => self.tables().worker_row(*id) matches Some(row) && same_worker(
                    worker@,
                    self.tables().worker_of(row),
                ),
                Err(StoreError::NotFound) => self.tables().worker_row(*id) is None,
                Err(StoreError::Failed) => true,
            },
    ;

    /// All workers, each with the kinds it is linked to, in any order.
    fn get_all_workers(&self) -> (r: Result<Vec<Worker>, StoreError>)
        ensures
            match r {
                Ok(workers) => exists|rows: Seq<WorkerRow>|
                    {
                        &&& rows.to_multiset() == self.tables().workers.to_multiset()
                        &&& #[trigger] rows.len() == workers.len()
                        &&& forall|i: int|
                            0 <= i < workers.len() ==> same_worker(
                                (#[trigger] workers[i])@,
                                self.tables().worker_of(rows[i]),
                            )
                    },
                Err(e) => e == StoreError::Failed,
            },
    ;

    /// Sets whether the worker is active. A worker that does not exist is
    /// reported as not found.
    fn set_worker_active(&mut self, worker_id: &Id, active: bool) -> (r: Result<(), StoreError>)
        ensures
            match r {
                Ok(_) => old(self).tables().worker_row(*worker_id) is Some && final(self).tables()
                    == old(self).tables().with_worker_changed(
                    *worker_id,
                    |row: WorkerRow| WorkerRow { active, ..row },
                ),
                Err(StoreError::NotFound) => old(self).tables().worker_row(*worker_id) is None
                    && final(self).tables() == old(self).tables(),
                Err(StoreError::Failed) => final(self).tables() == old(self).tables(),
            },
    ;

    /// Appends a heartbeat of the worker.
    fn record_heartbeat(&mut self, worker_id: &Id) -> (r: Result<(), StoreError>)
        ensures
            match r {
                Ok(_) => {
                    &&& final(self).tables().heartbeats.len() == old(self).tables().heartbeats.len() + 1
                    &&& final(self).tables().heartbeats.last().worker_id == *worker_id
                    &&& final(self).tables() == (Tables {
                        heartbeats: old(self).tables().heartbeats.push(
                            final(self).tables().heartbeats.last(),
                        ),
                        ..old(self).tables()
                    })
                },
                Err(e) => e == StoreError::Failed && final(self).tables() == old(self).tables(),
            },
    ;

    /// The instant of the most recent heartbeat of the worker.
    fn get_latest_heartbeat(&self, worker_id: &Id) -> (r: Result<Timestamp, StoreError>)
        ensures
            match r {
                Ok(instant) => self.tables().latest_heartbeat(*worker_id) matches Some(row)
                    && instant == row.heartbeat_time,
                Err(StoreError::NotFound) => self.tables().latest_heartbeat(*worker_id) is None,
                Err(StoreError::Failed) => true,
            },
    ;
}

} // verus!
