//! A store that keeps its tables in memory.
//!
//! It keeps what the schema demands by refusing the changes that would break
//! it, and it gives every new row a random identifier and the instant at which
//! it was inserted.

use crate::ident::Id;
use crate::models::{clone_document, clone_kinds, Json, TaskInstance, TaskKind, TaskResult, Worker};
use crate::status::TaskStatus;
use crate::store::{
    Database, StoreError, TaskInstanceRepository, TaskKindRepository, WorkerRepository,
};
use crate::time_format::Timestamp;
use vstd::prelude::*;

verus! {

/// A worker as the store keeps it.
pub struct WorkerRecord {
    pub id: Id,
    pub name: String,
    pub registered_at: Timestamp,
    pub active: bool,
    pub kinds: Vec<Id>,
}

impl View for WorkerRecord {
    type V = crate::store::WorkerRow;

    open spec fn view(&self) -> crate::store::WorkerRow {
        crate::store::WorkerRow {
            id: self.id,
            name: self.name@,
            registered_at: self.registered_at,
            active: self.active,
            kinds: self.kinds@,
        }
    }
}

/// A task as the store keeps it.
pub struct TaskRecord {
    pub id: Id,
    pub kind_id: Id,
    pub input_data: Option<Json>,
    pub status: TaskStatus,
    pub assigned_to: Option<Id>,
    pub created_at: Timestamp,
}

impl View for TaskRecord {
    type V = crate::store::TaskRow;

    open spec fn view(&self) -> crate::store::TaskRow {
        crate::store::TaskRow {
            id: self.id,
            kind_id: self.kind_id,
            input_data: crate::models::document_view(self.input_data),
            status: self.status,
            assigned_to: self.assigned_to,
            created_at: self.created_at,
        }
    }
}

/// A heartbeat as the store keeps it.
pub struct HeartbeatRecord {
    pub worker_id: Id,
    pub heartbeat_time: Timestamp,
}

impl View for HeartbeatRecord {
    type V = crate::store::HeartbeatRow;

    open spec fn view(&self) -> crate::store::HeartbeatRow {
        crate::store::HeartbeatRow { worker_id: self.worker_id, heartbeat_time: self.heartbeat_time }
    }
}

/// The tables, each a list of rows in the order of insertion.
pub struct MemoryStore {
    pub kinds: Vec<TaskKind>,
    pub workers: Vec<WorkerRecord>,
    pub heartbeats: Vec<HeartbeatRecord>,
    pub tasks: Vec<TaskRecord>,
    pub results: Vec<TaskResult>,
}

/// The views of a list of rows, in order.
pub open spec fn rows_view<R: View>(rows: Seq<R>) -> Seq<R::V> {
    Seq::new(rows.len(), |i: int| rows[i]@)
}

impl Database for MemoryStore {
    open spec fn tables(&self) -> crate::store::Tables {
        crate::store::Tables {
            kinds: rows_view(self.kinds@),
            workers: rows_view(self.workers@),
            heartbeats: rows_view(self.heartbeats@),
            tasks: rows_view(self.tasks@),
            results: rows_view(self.results@),
        }
    }
}

impl MemoryStore {
    /// A store with no rows.
    pub fn new() -> (r: MemoryStore)
        ensures
            r.tables() == crate::store::Tables::empty(),
    {
        let made = MemoryStore {
            kinds: Vec::new(),
            workers: Vec::new(),
            heartbeats: Vec::new(),
            tasks: Vec::new(),
            results: Vec::new(),
        };
        assert(made.tables().kinds =~= Seq::empty());
        assert(made.tables().workers =~= Seq::empty());
        assert(made.tables().heartbeats =~= Seq::empty());
        assert(made.tables().tasks =~= Seq::empty());
        assert(made.tables().results =~= Seq::empty());
        made
    }

    /// The position of the kind with the given name.
    fn kind_position_by_name(&self, name: &String) -> (r: Option<usize>)
        ensures
            match r {
                Some(position) => position < self.kinds.len() && position
                    == crate::store::first_position(
                    self.tables().kinds,
                    crate::store::kind_is_named(name@),
                    0,
                ) && self.kinds[position as int].name@ == name@,
                None => self.tables().kind_named(name@) is None,
            },
    {
        let mut i: usize = 0;
        while i < self.kinds.len()
            invariant
                i <= self.kinds.len(),
                crate::store::first_position(
                    self.tables().kinds,
                    crate::store::kind_is_named(name@),
                    0,
                ) == crate::store::first_position(
                    self.tables().kinds,
                    crate::store::kind_is_named(name@),
                    i as int,
                ),
            decreases self.kinds.len() - i,
        {
            if self.kinds[i].name == *name {
                return Some(i);
            }
            i = i + 1;
        }
        None
    }

    /// The position of the kind with the given identifier.
    fn kind_position_by_id(&self, id: Id) -> (r: Option<usize>)
        ensures
            match r {
                Some(position) => position < self.kinds.len() && position
                    == crate::store::first_position(
                    self.tables().kinds,
                    crate::store::kind_has_id(id),
                    0,
                ),
                None => self.tables().kind_with_id(id) is None,
            },
    {
        let mut i: usize = 0;
        while i < self.kinds.len()
            invariant
                i <= self.kinds.len(),
                crate::store::first_position(self.tables().kinds, crate::store::kind_has_id(id), 0)
                    == crate::store::first_position(
                    self.tables().kinds,
                    crate::store::kind_has_id(id),
                    i as int,
                ),
            decreases self.kinds.len() - i,
        {
            if self.kinds[i].id == id {
                return Some(i);
            }
            i = i + 1;
        }
        None
    }

    /// The position of the task with the given identifier.
    fn task_position(&self, id: Id) -> (r: Option<usize>)
        ensures
            match r {
                Some(position) => position < self.tasks.len() && position
                    == crate::store::first_position(
                    self.tables().tasks,
                    crate::store::task_has_id(id),
                    0,
                ),
                None => self.tables().task_row(id) is None,
            },
    {
        let mut i: usize = 0;
        while i < self.tasks.len()
            invariant
                i <= self.tasks.len(),
                crate::store::first_position(self.tables().tasks, crate::store::task_has_id(id), 0)
                    == crate::store::first_position(
                    self.tables().tasks,
                    crate::store::task_has_id(id),
                    i as int,
                ),
            decreases self.tasks.len() - i,
        {
            if self.tasks[i].id == id {
                return Some(i);
            }
            i = i + 1;
        }
        None
    }

    /// The position of the most recent result of the given task.
    fn latest_result_position(&self, task_id: Id) -> (r: Option<usize>)
        ensures
            match r {
                Some(position) => position < self.results.len() && position
                    == crate::store::latest_position(
                    self.tables().results,
                    crate::store::result_is_for(task_id),
                    crate::store::result_instant(),
                    self.results.len() as int,
                ),
                None => self.tables().latest_result(task_id) is None,
            },
    {
        let mut best: Option<usize> = None;
        let mut i: usize = 0;
        while i < self.results.len()
            invariant
                i <= self.results.len(),
                match best {
                    Some(position) => position < i && position == crate::store::latest_position(
                        self.tables().results,
                        crate::store::result_is_for(task_id),
                        crate::store::result_instant(),
                        i as int,
                    ),
                    None => crate::store::latest_position(
                        self.tables().results,
                        crate::store::result_is_for(task_id),
                        crate::store::result_instant(),
                        i as int,
                    ) < 0,
                },
            decreases self.results.len() - i,
        {
            if self.results[i].task_id == task_id {
                let later = match best {
                    Some(position) => self.results[position].created_at.unix_nanos
                        <= self.results[i].created_at.unix_nanos,
                    None => true,
                };
                if later {
                    best = Some(i);
                }
            }
            i = i + 1;
        }
        best
    }

    /// Sets the status of every task with the given identifier and, where an
    /// assignee is given, its assignee.
    fn change_task(&mut self, task_id: Id, status: TaskStatus, assignee: Option<Id>)
        ensures
            final(self).tables() == old(self).tables().with_task_changed(
                task_id,
                |row: crate::store::TaskRow|
                    crate::store::TaskRow {
                        status,
                        assigned_to: match assignee {
                            Some(worker_id) => Some(worker_id),
                            None => row.assigned_to,
                        },
                        ..row
                    },
            ),
    {
        let mut i: usize = 0;
        while i < self.tasks.len()
            invariant
                i <= self.tasks.len(),
                self.tasks.len() == old(self).tasks.len(),
                self.kinds == old(self).kinds,
                self.workers == old(self).workers,
                self.heartbeats == old(self).heartbeats,
                self.results == old(self).results,
                forall|j: int|
                    i <= j < self.tasks.len() ==> (#[trigger] self.tasks[j]) == old(self).tasks[j],
                forall|j: int|
                    0 <= j < i ==> (#[trigger] self.tasks[j])@ == if old(self).tasks[j].id == task_id {
                        crate::store::TaskRow {
                            status,
                            assigned_to: match assignee {
                                Some(worker_id) => Some(worker_id),
                                None => old(self).tasks[j].assigned_to,
                            },
                            ..old(self).tasks[j]@
                        }
                    } else {
                        old(self).tasks[j]@
                    },
            decreases self.tasks.len() - i,
        {
            if self.tasks[i].id == task_id {
                let record = &self.tasks[i];
                let changed = TaskRecord {
                    id: record.id,
                    kind_id: record.kind_id,
                    input_data: clone_document(&record.input_data),
                    status,
                    assigned_to: match assignee {
                        Some(worker_id) => Some(worker_id),
                        None => record.assigned_to,
                    },
                    created_at: record.created_at,
                };
                self.tasks.set(i, changed);
            }
            i = i + 1;
        }
        assert(self.tables().tasks =~= old(self).tables().with_task_changed(
            task_id,
            |row: crate::store::TaskRow|
                crate::store::TaskRow {
                    status,
                    assigned_to: match assignee {
                        Some(worker_id) => Some(worker_id),
                        None => row.assigned_to,
                    },
                    ..row
                },
        ).tasks);
    }
}

impl TaskKindRepository for MemoryStore {
    /// Succeeds where the kind is known. Where it is not, the store fails only
    /// if the fresh identifier is already taken.
    fn get_or_create_task_kind(&mut self, name: String) -> (r: Result<TaskKind, StoreError>)
        ensures
            old(self).tables().kind_named(name@) is Some ==> r is Ok,
            old(self).tables().well_formed() ==> final(self).tables().well_formed(),
    {
        self.resolve_kind(name, Id::random())
    }

    /// Never fails, and lists the kinds in the order of insertion.
    fn get_all_task_kinds(&self) -> (r: Result<Vec<TaskKind>, StoreError>)
        ensures
            r is Ok,
            crate::models::kinds_view(r->Ok_0@) == self.tables().kinds,
    {
        let kinds = crate::models::clone_kinds(&self.kinds);
        assert(crate::models::kinds_view(kinds@) =~= self.tables().kinds);
        Ok(kinds)
    }
}

impl TaskInstanceRepository for MemoryStore {
    /// Fails where the kind does not exist; where it exists, only if the fresh
    /// identifier is already taken.
    fn create_task(&mut self, task_kind_id: Id, input_data: Option<Json>) -> (r: Result<
        TaskInstance,
        StoreError,
    >)
        ensures
            old(self).tables().kind_with_id(task_kind_id) is None ==> r is Err,
            old(self).tables().well_formed() ==> final(self).tables().well_formed(),
    {
        self.insert_task(task_kind_id, input_data, Id::random(), Timestamp::now())
    }

    /// Fails where the task does not exist, or where its kind has no row.
    fn get_task_by_id(&self, id: &Id, include_result: bool) -> (r: Result<TaskInstance, StoreError>)
        ensures
            r is Ok <==> (self.tables().task_row(*id) matches Some(row) && self.tables().kind_with_id(
                row.kind_id,
            ) is Some),
            self.tables().task_row(*id) is None ==> r == Err::<TaskInstance, StoreError>(
                StoreError::NotFound,
            ),
    {
        let record = match self.task_position(*id) {
            Some(position) => &self.tasks[position],
            None => {
                return Err(StoreError::NotFound);
            },
        };
        let kind = match self.kind_position_by_id(record.kind_id) {
            Some(position) => self.kinds[position].clone(),
            None => {
                return Err(StoreError::Failed);
            },
        };
        let result = if include_result {
            match self.latest_result_position(record.id) {
                Some(position) => Some(self.results[position].clone()),
                None => None,
            }
        } else {
            None
        };
        Ok(
            TaskInstance {
                id: record.id,
                task_kind: kind,
                input_data: clone_document(&record.input_data),
                status: record.status,
                created_at: record.created_at,
                assigned_to: record.assigned_to,
                result,
            },
        )
    }

    /// Never fails.
    fn assign_task_to_worker(&mut self, task_id: &Id, worker_id: &Id) -> (r: Result<(), StoreError>)
        ensures
            r is Ok,
            old(self).tables().well_formed() ==> final(self).tables().well_formed(),
    {
        proof {
            crate::store_laws::lemma_assignment(self.tables(), *task_id, *worker_id);
        }
        self.change_task(*task_id, TaskStatus::Queued, Some(*worker_id));
        assert(self.tables().tasks =~= old(self).tables().with_task_assigned(
            *task_id,
            *worker_id,
        ).tasks);
        Ok(())
    }

    /// Never fails.
    fn update_task_status(&mut self, task_id: &Id, status: TaskStatus) -> (r: Result<(), StoreError>)
        ensures
            r is Ok,
            old(self).tables().well_formed() ==> final(self).tables().well_formed(),
    {
        proof {
            crate::store_laws::lemma_status_update(self.tables(), *task_id, status);
        }
        self.change_task(*task_id, status, None);
        assert(self.tables().tasks =~= old(self).tables().with_task_status(*task_id, status).tasks);
        Ok(())
    }

    /// Fails exactly where the task does not exist.
    fn upload_task_error(&mut self, task_id: &Id, worker_id: &Id, error: Json) -> (r: Result<
        TaskResult,
        StoreError,
    >)
        ensures
            r is Ok <==> old(self).tables().task_row(*task_id) is Some,
            old(self).tables().well_formed() ==> final(self).tables().well_formed(),
    {
        self.insert_result(*task_id, *worker_id, None, Some(error), Timestamp::now())
    }

    /// Fails exactly where the task does not exist.
    fn upload_task_result(&mut self, task_id: &Id, worker_id: &Id, output: Json) -> (r: Result<
        TaskResult,
        StoreError,
    >)
        ensures
            r is Ok <==> old(self).tables().task_row(*task_id) is Some,
            old(self).tables().well_formed() ==> final(self).tables().well_formed(),
    {
        self.insert_result(*task_id, *worker_id, Some(output), None, Timestamp::now())
    }
}

impl MemoryStore {
    /// Asks for the kind of the given name, with `fresh` as the identifier of
    /// a kind that has to be created.
    ///
    /// A kind that is known is returned as it is. One that is not is created
    /// with the fresh identifier, unless a kind has that identifier already:
    /// then the store refuses and nothing changes.
    pub fn resolve_kind(&mut self, name: String, fresh: Id) -> (r: Result<TaskKind, StoreError>)
        ensures
            old(self).tables().well_formed() ==> final(self).tables().well_formed(),
            match old(self).tables().kind_named(name@) {
                Some(known) => r is Ok && r->Ok_0@ == known && final(self).tables() == old(self).tables(),
                None => if old(self).tables().kind_with_id(fresh) is None {
                    let kind = crate::models::TaskKindView { id: fresh, name: name@ };
                    &&& r is Ok && r->Ok_0@ == kind
                    &&& final(self).tables() == old(self).tables().with_kind(kind)
                } else {
                    &&& r == Err::<TaskKind, StoreError>(StoreError::Failed)
                    &&& final(self).tables() == old(self).tables()
                },
            },
            r matches Ok(kind) ==> kind@.name == name@ && old(self).tables().kind_resolved(kind@)
                && final(self).tables() == old(self).tables().with_kind(kind@),
    {
        match self.kind_position_by_name(&name) {
            Some(position) => Ok(self.kinds[position].clone()),
            None => {
                match self.kind_position_by_id(fresh) {
                    Some(_) => Err(StoreError::Failed),
                    None => {
                        let kind = TaskKind { id: fresh, name };
                        let made = kind.clone();
                        self.kinds.push(kind);
                        assert(self.tables().kinds =~= old(self).tables().kinds.push(made@));
                        proof {
                            if old(self).tables().well_formed() {
                                crate::store_laws::lemma_kind_resolution(old(self).tables(), made@);
                            }
                        }
                        Ok(made)
                    },
                }
            },
        }
    }

    /// Inserts a pending task of the given kind, with `fresh` as its
    /// identifier and `now` as the instant of its creation.
    ///
    /// The store refuses, and nothing changes, where the kind does not exist or
    /// a task has the fresh identifier already.
    pub fn insert_task(
        &mut self,
        task_kind_id: Id,
        input_data: Option<Json>,
        fresh: Id,
        now: Timestamp,
    ) -> (r: Result<TaskInstance, StoreError>)
        ensures
            old(self).tables().well_formed() ==> final(self).tables().well_formed(),
            r is Ok <==> old(self).tables().kind_with_id(task_kind_id) is Some && old(self).tables().task_row(fresh) is None,
            match r {
                Ok(task) => {
                    &&& task@ == (crate::models::TaskInstanceView {
                        id: fresh,
                        task_kind: old(self).tables().kind_with_id(task_kind_id)->Some_0,
                        input_data: crate::models::document_view(input_data),
                        status: TaskStatus::Pending,
                        created_at: now,
                        assigned_to: None,
                        result: None,
                    })
                    &&& old(self).tables().task_created(
                        task_kind_id,
                        crate::models::document_view(input_data),
                        task@,
                    )
                    &&& final(self).tables() == old(self).tables().with_task(task_kind_id, task@)
                },
                Err(e) => e == StoreError::Failed && final(self).tables() == old(self).tables(),
            },
    {
        let kind = match self.kind_position_by_id(task_kind_id) {
            Some(position) => self.kinds[position].clone(),
            None => {
                return Err(StoreError::Failed);
            },
        };
        if self.task_position(fresh).is_some() {
            return Err(StoreError::Failed);
        }
        let task = TaskInstance {
            id: fresh,
            task_kind: kind,
            input_data: clone_document(&input_data),
            status: TaskStatus::Pending,
            created_at: now,
            assigned_to: None,
            result: None,
        };
        self.tasks.push(
            TaskRecord {
                id: fresh,
                kind_id: task_kind_id,
                input_data,
                status: TaskStatus::Pending,
                assigned_to: None,
                created_at: now,
            },
        );
        assert(self.tables().tasks =~= old(self).tables().with_task(task_kind_id, task@).tasks);
        proof {
            crate::store_laws::lemma_task_creation(
                old(self).tables(),
                task_kind_id,
                crate::models::document_view(input_data),
                task@,
            );
        }
        Ok(task)
    }

    /// Gives the task the status that goes with the result, completed for an
    /// output and failed for an error, and appends a result made at `now`.
    ///
    /// The store refuses, and nothing changes, where the task does not exist.
    pub fn insert_result(
        &mut self,
        task_id: Id,
        worker_id: Id,
        output_data: Option<Json>,
        error_data: Option<Json>,
        now: Timestamp,
    ) -> (r: Result<TaskResult, StoreError>)
        requires
            output_data is Some != error_data is Some,
        ensures
            r is Ok <==> old(self).tables().task_row(task_id) is Some,
            old(self).tables().well_formed() ==> final(self).tables().well_formed(),
            match r {
                Ok(result) => {
                    &&& result@ == (crate::models::TaskResultView {
                        task_id,
                        output_data: crate::models::document_view(output_data),
                        error_data: crate::models::document_view(error_data),
                        worker_id,
                        created_at: now,
                    })
                    &&& crate::store::uploaded(
                        result@,
                        task_id,
                        worker_id,
                        crate::models::document_view(output_data),
                        crate::models::document_view(error_data),
                    )
                    &&& final(self).tables() == old(self).tables().with_result(result@)
                },
                Err(e) => e == StoreError::Failed && final(self).tables() == old(self).tables(),
            },
    {
        if self.task_position(task_id).is_none() {
            return Err(StoreError::Failed);
        }
        let status = if error_data.is_some() {
            TaskStatus::Failed
        } else {
            TaskStatus::Completed
        };
        self.change_task(task_id, status, None);
        let result = TaskResult { task_id, output_data, error_data, worker_id, created_at: now };
        let stored = result.clone();
        self.results.push(stored);
        assert(self.tables().results =~= old(self).tables().results.push(result@));
        assert(self.tables().tasks =~= old(self).tables().with_result(result@).tasks);
        proof {
            crate::store_laws::lemma_upload(old(self).tables(), result@);
        }
        Ok(result)
    }
}

/// The position of the first kind with the given identifier in a list.
fn find_kind(kinds: &Vec<TaskKind>, id: Id) -> (r: Option<usize>)
    ensures
        match r {
            Some(position) => position < kinds.len() && position == crate::store::first_position(
                rows_view(kinds@),
                crate::store::kind_has_id(id),
                0,
            ),
            None => crate::store::first_position(
                rows_view(kinds@),
                crate::store::kind_has_id(id),
                0,
            ) >= kinds.len(),
        },
{
    let mut i: usize = 0;
    while i < kinds.len()
        invariant
            i <= kinds.len(),
            crate::store::first_position(rows_view(kinds@), crate::store::kind_has_id(id), 0)
                == crate::store::first_position(
                rows_view(kinds@),
                crate::store::kind_has_id(id),
                i as int,
            ),
        decreases kinds.len() - i,
    {
        if kinds[i].id == id {
            return Some(i);
        }
        i = i + 1;
    }
    None
}

/// Whether no two kinds of a list have the same name.
fn names_distinct(kinds: &Vec<TaskKind>) -> (r: bool)
    ensures
        r == crate::store::distinct_names(rows_view(kinds@)),
{
    let mut j: usize = 0;
    while j < kinds.len()
        invariant
            j <= kinds.len(),
            forall|a: int, b: int| 0 <= a < b < j ==> kinds[a].name@ != kinds[b].name@,
        decreases kinds.len() - j,
    {
        let mut i: usize = 0;
        while i < j
            invariant
                i <= j < kinds.len(),
                forall|a: int, b: int| 0 <= a < b < j ==> kinds[a].name@ != kinds[b].name@,
                forall|a: int| 0 <= a < i ==> kinds[a].name@ != kinds[j as int].name@,
            decreases j - i,
        {
            if kinds[i].name == kinds[j].name {
                assert(rows_view(kinds@)[i as int].name == rows_view(kinds@)[j as int].name);
                return false;
            }
            i = i + 1;
        }
        j = j + 1;
    }
    true
}

/// Whether no two kinds of a list have the same identifier.
fn ids_distinct(kinds: &Vec<TaskKind>) -> (r: bool)
    ensures
        r == crate::store::kind_ids(crate::models::kinds_view(kinds@)).no_duplicates(),
{
    let ghost ids = crate::store::kind_ids(crate::models::kinds_view(kinds@));
    let mut j: usize = 0;
    while j < kinds.len()
        invariant
            j <= kinds.len(),
            ids == crate::store::kind_ids(crate::models::kinds_view(kinds@)),
            forall|a: int, b: int| 0 <= a < b < j ==> kinds[a].id != kinds[b].id,
        decreases kinds.len() - j,
    {
        let mut i: usize = 0;
        while i < j
            invariant
                i <= j < kinds.len(),
                ids == crate::store::kind_ids(crate::models::kinds_view(kinds@)),
                forall|a: int, b: int| 0 <= a < b < j ==> kinds[a].id != kinds[b].id,
                forall|a: int| 0 <= a < i ==> kinds[a].id != kinds[j as int].id,
            decreases j - i,
        {
            if kinds[i].id == kinds[j].id {
                assert(ids[i as int] == ids[j as int]);
                return false;
            }
            i = i + 1;
        }
        j = j + 1;
    }
    assert forall|a: int, b: int| 0 <= a < ids.len() && 0 <= b < ids.len() && a != b implies ids[a]
        != ids[b] by {
        if a < b {
            assert(kinds[a].id != kinds[b].id);
        } else {
            assert(kinds[b].id != kinds[a].id);
        }
    }
    true
}

/// The identifiers of a list of kinds, in order.
fn ids_of(kinds: &Vec<TaskKind>) -> (r: Vec<Id>)
    ensures
        r@ == crate::store::kind_ids(crate::models::kinds_view(kinds@)),
{
    let mut ids: Vec<Id> = Vec::new();
    let mut i: usize = 0;
    while i < kinds.len()
        invariant
            i <= kinds.len(),
            ids.len() == i,
            forall|j: int| 0 <= j < i ==> ids[j] == kinds[j].id,
        decreases kinds.len() - i,
    {
        ids.push(kinds[i].id);
        i = i + 1;
    }
    assert(ids@ =~= crate::store::kind_ids(crate::models::kinds_view(kinds@)));
    ids
}

/// A copy of a list of identifiers.
fn clone_ids(ids: &Vec<Id>) -> (r: Vec<Id>)
    ensures
        r@ == ids@,
{
    let mut copy: Vec<Id> = Vec::new();
    let mut i: usize = 0;
    while i < ids.len()
        invariant
            i <= ids.len(),
            copy.len() == i,
            forall|j: int| 0 <= j < i ==> copy[j] == ids[j],
        decreases ids.len() - i,
    {
        copy.push(ids[i]);
        i = i + 1;
    }
    assert(copy@ =~= ids@);
    copy
}

impl MemoryStore {
    /// The table of kinds with each of the given kinds that is missing, by
    /// its identifier, appended in order.
    fn merged_kinds(&self, task_kinds: &Vec<TaskKind>) -> (r: Vec<TaskKind>)
        ensures
            rows_view(r@) == self.tables().kinds_with(crate::models::kinds_view(task_kinds@)),
    {
        let ghost given = crate::models::kinds_view(task_kinds@);
        let mut merged = clone_kinds(&self.kinds);
        assert(rows_view(merged@) =~= self.tables().kinds) by {
            assert(crate::models::kinds_view(merged@) =~= rows_view(merged@));
            assert(crate::models::kinds_view(self.kinds@) =~= rows_view(self.kinds@));
        }
        assert(given.subrange(0, 0) =~= Seq::empty());
        let mut i: usize = 0;
        while i < task_kinds.len()
            invariant
                i <= task_kinds.len(),
                given == crate::models::kinds_view(task_kinds@),
                rows_view(merged@) == self.tables().kinds_with(given.subrange(0, i as int)),
            decreases task_kinds.len() - i,
        {
            let ghost before = rows_view(merged@);
            proof {
                let upto = given.subrange(0, i as int + 1);
                assert(upto.drop_last() =~= given.subrange(0, i as int));
                assert(upto.last() == task_kinds[i as int]@);
            }
            if find_kind(&merged, task_kinds[i].id).is_none() {
                merged.push(task_kinds[i].clone());
                assert(rows_view(merged@) =~= before.push(task_kinds[i as int]@));
            }
            i = i + 1;
        }
        assert(given.subrange(0, task_kinds.len() as int) =~= given);
        merged
    }

    /// The position of the worker with the given identifier.
    fn worker_position(&self, id: Id) -> (r: Option<usize>)
        ensures
            match r {
                Some(position) => position < self.workers.len() && position
                    == crate::store::first_position(
                    self.tables().workers,
                    crate::store::worker_has_id(id),
                    0,
                ),
                None => self.tables().worker_row(id) is None,
            },
    {
        let mut i: usize = 0;
        while i < self.workers.len()
            invariant
                i <= self.workers.len(),
                crate::store::first_position(
                    self.tables().workers,
                    crate::store::worker_has_id(id),
                    0,
                ) == crate::store::first_position(
                    self.tables().workers,
                    crate::store::worker_has_id(id),
                    i as int,
                ),
            decreases self.workers.len() - i,
        {
            if self.workers[i].id == id {
                return Some(i);
            }
            i = i + 1;
        }
        None
    }

    /// The position of the most recent heartbeat of the worker.
    fn latest_heartbeat_position(&self, worker_id: Id) -> (r: Option<usize>)
        ensures
            match r {
                Some(position) => position < self.heartbeats.len() && position
                    == crate::store::latest_position(
                    self.tables().heartbeats,
                    crate::store::heartbeat_is_for(worker_id),
                    crate::store::heartbeat_instant(),
                    self.heartbeats.len() as int,
                ),
                None => self.tables().latest_heartbeat(worker_id) is None,
            },
    {
        let mut best: Option<usize> = None;
        let mut i: usize = 0;
        while i < self.heartbeats.len()
            invariant
                i <= self.heartbeats.len(),
                match best {
                    Some(position) => position < i && position == crate::store::latest_position(
                        self.tables().heartbeats,
                        crate::store::heartbeat_is_for(worker_id),
                        crate::store::heartbeat_instant(),
                        i as int,
                    ),
                    None => crate::store::latest_position(
                        self.tables().heartbeats,
                        crate::store::heartbeat_is_for(worker_id),
                        crate::store::heartbeat_instant(),
                        i as int,
                    ) < 0,
                },
            decreases self.heartbeats.len() - i,
        {
            if self.heartbeats[i].worker_id == worker_id {
                let later = match best {
                    Some(position) => self.heartbeats[position].heartbeat_time.unix_nanos
                        <= self.heartbeats[i].heartbeat_time.unix_nanos,
                    None => true,
                };
                if later {
                    best = Some(i);
                }
            }
            i = i + 1;
        }
        best
    }

    /// Gives every worker with the given identifier the name and the kinds,
    /// or the activity, that are given, and leaves it the rest.
    fn change_worker(
        &mut self,
        id: Id,
        name: Option<&String>,
        kinds: Option<&Vec<Id>>,
        active: Option<bool>,
    )
        ensures
            final(self).tables() == old(self).tables().with_worker_changed(
                id,
                |row: crate::store::WorkerRow|
                    crate::store::WorkerRow {
                        name: match name {
                            Some(given) => given@,
                            None => row.name,
                        },
                        kinds: match kinds {
                            Some(given) => given@,
                            None => row.kinds,
                        },
                        active: match active {
                            Some(given) => given,
                            None => row.active,
                        },
                        ..row
                    },
            ),
    {
        let mut i: usize = 0;
        while i < self.workers.len()
            invariant
                i <= self.workers.len(),
                self.workers.len() == old(self).workers.len(),
                self.kinds == old(self).kinds,
                self.tasks == old(self).tasks,
                self.heartbeats == old(self).heartbeats,
                self.results == old(self).results,
                forall|j: int|
                    i <= j < self.workers.len() ==> (#[trigger] self.workers[j]) == old(self).workers[j],
                forall|j: int|
                    0 <= j < i ==> (#[trigger] self.workers[j])@ == if old(self).workers[j].id == id {
                        crate::store::WorkerRow {
                            name: match name {
                                Some(given) => given@,
                                None => old(self).workers[j]@.name,
                            },
                            kinds: match kinds {
                                Some(given) => given@,
                                None => old(self).workers[j]@.kinds,
                            },
                            active: match active {
                                Some(given) => given,
                                None => old(self).workers[j]@.active,
                            },
                            ..old(self).workers[j]@
                        }
                    } else {
                        old(self).workers[j]@
                    },
            decreases self.workers.len() - i,
        {
            if self.workers[i].id == id {
                let record = &self.workers[i];
                let changed = WorkerRecord {
                    id: record.id,
                    name: match name {
                        Some(given) => given.clone(),
                        None => record.name.clone(),
                    },
                    registered_at: record.registered_at,
                    active: match active {
                        Some(given) => given,
                        None => record.active,
                    },
                    kinds: match kinds {
                        Some(given) => clone_ids(given),
                        None => clone_ids(&record.kinds),
                    },
                };
                self.workers.set(i, changed);
            }
            i = i + 1;
        }
        assert(self.tables().workers =~= old(self).tables().with_worker_changed(
            id,
            |row: crate::store::WorkerRow|
                crate::store::WorkerRow {
                    name: match name {
                        Some(given) => given@,
                        None => row.name,
                    },
                    kinds: match kinds {
                        Some(given) => given@,
                        None => row.kinds,
                    },
                    active: match active {
                        Some(given) => given,
                        None => row.active,
                    },
                    ..row
                },
        ).workers);
    }
}

impl MemoryStore {
    /// Registers a worker with `now` as the instant of a first registration.
    ///
    /// The worker is inserted, or keeps the instant of its first registration
    /// and takes the new name; it is active afterwards; its kinds are replaced
    /// by the given ones, and the kinds that are missing, by their identifier,
    /// are inserted. The store refuses, and nothing changes, where that would
    /// give a name to two kinds or link a kind twice.
    pub fn register_worker_at(
        &mut self,
        id: Id,
        name: String,
        task_kinds: Vec<TaskKind>,
        now: Timestamp,
    ) -> (r: Result<Worker, StoreError>)
        ensures
            r is Ok <==> old(self).tables().kinds_acceptable(crate::models::kinds_view(task_kinds@)),
            old(self).tables().well_formed() ==> final(self).tables().well_formed(),
            match r {
                Ok(worker) => {
                    let kinds = crate::models::kinds_view(task_kinds@);
                    &&& final(self).tables() == old(self).tables().with_worker_registered(
                        id,
                        name@,
                        kinds,
                        now,
                    )
                    &&& worker@ == (crate::models::WorkerView {
                        id,
                        name: name@,
                        registered_at: match old(self).tables().worker_row(id) {
                            Some(known) => known.registered_at,
                            None => now,
                        },
                        task_kind: kinds,
                        active: true,
                    })
                    &&& final(self).tables().worker_row(id) matches Some(row) && row.registered_at
                        == worker.registered_at && row.active == worker.active
                },
                Err(e) => e == StoreError::Failed && final(self).tables() == old(self).tables(),
            },
    {
        let ghost kinds = crate::models::kinds_view(task_kinds@);
        let merged = self.merged_kinds(&task_kinds);
        if !names_distinct(&merged) || !ids_distinct(&task_kinds) {
            return Err(StoreError::Failed);
        }
        let linked = ids_of(&task_kinds);
        let registered_at = match self.worker_position(id) {
            Some(position) => {
                let kept = self.workers[position].registered_at;
                self.change_worker(id, Some(&name), Some(&linked), Some(true));
                assert(self.tables().workers =~= old(self).tables().with_worker_changed(
                    id,
                    |row: crate::store::WorkerRow|
                        crate::store::WorkerRow { name: name@, kinds: linked@, active: true, ..row },
                ).workers);
                kept
            },
            None => {
                self.workers.push(
                    WorkerRecord { id, name: name.clone(), registered_at: now, active: true, kinds: linked },
                );
                assert(self.tables().workers =~= old(self).tables().workers.push(
                    crate::store::WorkerRow {
                        id,
                        name: name@,
                        registered_at: now,
                        active: true,
                        kinds: crate::store::kind_ids(kinds),
                    },
                ));
                now
            },
        };
        self.kinds = merged;
        proof {
            crate::store_laws::lemma_registered_row(old(self).tables(), id, name@, kinds, now);
            if old(self).tables().well_formed() {
                crate::store_laws::lemma_registration(old(self).tables(), id, name@, kinds, now);
            }
        }
        Ok(Worker { id, name, registered_at, task_kind: task_kinds, active: true })
    }

    /// Appends a heartbeat of the worker at the instant `now`.
    pub fn record_heartbeat_at(&mut self, worker_id: Id, now: Timestamp)
        ensures
            final(self).tables() == (crate::store::Tables {
                heartbeats: old(self).tables().heartbeats.push(
                    crate::store::HeartbeatRow { worker_id, heartbeat_time: now },
                ),
                ..old(self).tables()
            }),
            crate::store_laws::none_later(
                old(self).tables().heartbeats,
                crate::store::heartbeat_is_for(worker_id),
                crate::store::heartbeat_instant(),
                now,
            ) ==> final(self).tables().latest_heartbeat(worker_id) == Some(
                crate::store::HeartbeatRow { worker_id, heartbeat_time: now },
            ),
            old(self).tables().well_formed() ==> final(self).tables().well_formed(),
    {
        self.heartbeats.push(HeartbeatRecord { worker_id, heartbeat_time: now });
        assert(self.tables().heartbeats =~= old(self).tables().heartbeats.push(
            crate::store::HeartbeatRow { worker_id, heartbeat_time: now },
        ));
        proof {
            crate::store_laws::lemma_latest_after_push(
                old(self).tables().heartbeats,
                crate::store::heartbeat_is_for(worker_id),
                crate::store::heartbeat_instant(),
                crate::store::HeartbeatRow { worker_id, heartbeat_time: now },
            );
        }
    }

    /// The kinds that the given identifiers name, in their order.
    fn joined_kinds(&self, ids: &Vec<Id>) -> (r: Vec<TaskKind>)
        ensures
            crate::models::kinds_view(r@) == self.tables().kinds_joined(ids@),
    {
        let mut joined: Vec<TaskKind> = Vec::new();
        assert(ids@.subrange(0, 0) =~= Seq::empty());
        assert(crate::models::kinds_view(joined@) =~= Seq::empty());
        let mut i: usize = 0;
        while i < ids.len()
            invariant
                i <= ids.len(),
                crate::models::kinds_view(joined@) == self.tables().kinds_joined(
                    ids@.subrange(0, i as int),
                ),
            decreases ids.len() - i,
        {
            let ghost before = crate::models::kinds_view(joined@);
            proof {
                let upto = ids@.subrange(0, i as int + 1);
                assert(upto.drop_last() =~= ids@.subrange(0, i as int));
                assert(upto.last() == ids[i as int]);
            }
            match self.kind_position_by_id(ids[i]) {
                Some(position) => {
                    joined.push(self.kinds[position].clone());
                    assert(crate::models::kinds_view(joined@) =~= before.push(
                        self.kinds[position as int]@,
                    ));
                },
                None => {},
            }
            i = i + 1;
        }
        assert(ids@.subrange(0, ids.len() as int) =~= ids@);
        joined
    }

    /// The worker that the record at the given position stands for.
    fn worker_at(&self, position: usize) -> (r: Worker)
        requires
            position < self.workers.len(),
        ensures
            r@ == self.tables().worker_of(self.tables().workers[position as int]),
    {
        let record = &self.workers[position];
        Worker {
            id: record.id,
            name: record.name.clone(),
            registered_at: record.registered_at,
            task_kind: self.joined_kinds(&record.kinds),
            active: record.active,
        }
    }
}

impl WorkerRepository for MemoryStore {
    /// Succeeds exactly where the kinds can be linked to one worker.
    fn register_worker(&mut self, id: Id, name: String, task_kinds: Vec<TaskKind>) -> (r: Result<
        Worker,
        StoreError,
    >)
        ensures
            r is Ok <==> old(self).tables().kinds_acceptable(crate::models::kinds_view(task_kinds@)),
            old(self).tables().well_formed() ==> final(self).tables().well_formed(),
    {
        self.register_worker_at(id, name, task_kinds, Timestamp::now())
    }

    /// Fails exactly where the worker does not exist.
    fn get_worker_by_id(&self, id: &Id) -> (r: Result<Worker, StoreError>)
        ensures
            match r {
                Ok(worker) => self.tables().worker_row(*id) matches Some(row) && worker@
                    == self.tables().worker_of(row),
                Err(e) => e == StoreError::NotFound,
            },
    {
        match self.worker_position(*id) {
            Some(position) => Ok(self.worker_at(position)),
            None => Err(StoreError::NotFound),
        }
    }

    /// Never fails, and lists the workers in the order of insertion.
    fn get_all_workers(&self) -> (r: Result<Vec<Worker>, StoreError>)
        ensures
            r is Ok,
            r->Ok_0.len() == self.tables().workers.len(),
            forall|i: int|
                0 <= i < r->Ok_0.len() ==> (#[trigger] r->Ok_0[i])@ == self.tables().worker_of(
                    self.tables().workers[i],
                ),
    {
        let mut workers: Vec<Worker> = Vec::new();
        let mut i: usize = 0;
        while i < self.workers.len()
            invariant
                i <= self.workers.len(),
                workers.len() == i,
                forall|j: int|
                    0 <= j < i ==> (#[trigger] workers[j])@ == self.tables().worker_of(
                        self.tables().workers[j],
                    ),
            decreases self.workers.len() - i,
        {
            workers.push(self.worker_at(i));
            i = i + 1;
        }
        assert(self.tables().workers.len() == workers.len());
        Ok(workers)
    }

    /// Fails exactly where the worker does not exist, and reports that it was
    /// not found.
    fn set_worker_active(&mut self, worker_id: &Id, active: bool) -> (r: Result<(), StoreError>)
        ensures
            r is Ok <==> old(self).tables().worker_row(*worker_id) is Some,
            r is Err ==> r == Err::<(), StoreError>(StoreError::NotFound),
            old(self).tables().well_formed() ==> final(self).tables().well_formed(),
    {
        proof {
            if self.tables().well_formed() {
                crate::store_laws::lemma_activity(self.tables(), *worker_id, active);
            }
        }
        if self.worker_position(*worker_id).is_none() {
            return Err(StoreError::NotFound);
        }
        self.change_worker(*worker_id, None, None, Some(active));
        assert(self.tables().workers =~= old(self).tables().with_worker_changed(
            *worker_id,
            |row: crate::store::WorkerRow| crate::store::WorkerRow { active, ..row },
        ).workers);
        Ok(())
    }

    /// Never fails.
    fn record_heartbeat(&mut self, worker_id: &Id) -> (r: Result<(), StoreError>)
        ensures
            r is Ok,
            old(self).tables().well_formed() ==> final(self).tables().well_formed(),
    {
        self.record_heartbeat_at(*worker_id, Timestamp::now());
        Ok(())
    }

    /// Fails exactly where no heartbeat of the worker was recorded.
    fn get_latest_heartbeat(&self, worker_id: &Id) -> (r: Result<Timestamp, StoreError>)
        ensures
            r is Ok <==> self.tables().latest_heartbeat(*worker_id) is Some,
    {
        match self.latest_heartbeat_position(*worker_id) {
            Some(position) => Ok(self.heartbeats[position].heartbeat_time),
            None => Err(StoreError::NotFound),
        }
    }
}

} // verus!
