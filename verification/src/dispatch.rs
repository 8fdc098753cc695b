//! The dispatch orchestrator: the protocols that take a request through the
//! store and the broker coordinator, and the answer that each outcome gets.
//!
//! No error of the store or of the coordinator is swallowed and nothing is
//! retried: the first failure ends the protocol and is answered at once.

use crate::broker::{Broker, BrokerError};
use crate::driver::BrokerCore;
use crate::ident::Id;
use crate::models::{Json, TaskInstance, TaskKind, Worker};
use crate::status::TaskStatus;
use crate::store::{StoreError, TaskInstanceRepository, TaskKindRepository, WorkerRepository};
use vstd::prelude::*;
use vstd::string::StringExecFns;

verus! {

/// The status of an answer.
#[derive(Clone, Copy, Debug, PartialEq, Eq, Structural)]
pub enum StatusCode {
    Success,
    Created,
    BadRequest,
    NotFound,
    InternalServerError,
}

impl StatusCode {
    /// The number of the status.
    pub open spec fn number(self) -> u16 {
        match self {
            StatusCode::Success => 200,
            StatusCode::Created => 201,
            StatusCode::BadRequest => 400,
            StatusCode::NotFound => 404,
            StatusCode::InternalServerError => 500,
        }
    }

    /// The number of the status.
    pub fn code(self) -> (r: u16)
        ensures
            r == self.number(),
    {
        match self {
            StatusCode::Success => 200,
            StatusCode::Created => 201,
            StatusCode::BadRequest => 400,
            StatusCode::NotFound => 404,
            StatusCode::InternalServerError => 500,
        }
    }
}

/// The answer to a request that was not carried out.
#[derive(Debug, PartialEq, Eq)]
pub struct Rejection {
    pub status: StatusCode,
    pub message: String,
}

/// An answer with the given status and a message made of a cause and, after
/// a colon, its detail.
pub fn rejection(status: StatusCode, cause: &str, detail: &str) -> (r: Rejection)
    ensures
        r.status == status,
        r.message@ == cause@ + ": "@ + detail@,
{
    Rejection { status, message: cause.to_owned().concat(": ").concat(detail) }
}

/// What a client sends to submit a task.
#[derive(Debug, PartialEq, Eq)]
pub struct CreateTaskInput {
    pub task_kind_name: String,
    pub input_data: Option<Json>,
}

/// The step at which the submission of a task ended, where it did not end in
/// success.
pub enum SubmitError {
    /// The kind could not be found or created. Nothing has changed.
    Kind(StoreError),
    /// The task could not be created. The kind exists.
    Create(StoreError),
    /// The task exists and is pending, and no message was accepted for it.
    Publish(TaskInstance, BrokerError),
    /// The message was accepted, and the task is still pending in the store.
    Assign(TaskInstance, Id, StoreError),
}

/// The message that a task is published as to a worker.
pub open spec fn publication_of(
    task: crate::models::TaskInstanceView,
    worker_id: Id,
    payload: Seq<u8>,
) -> crate::driver::Operation {
    crate::driver::Operation::Publish {
        exchange: crate::broker::SUBMISSION_EXCHANGE@,
        routing_key: worker_id.text(),
        payload,
        message_id: task.id.text(),
        task_id: task.id.text(),
    }
}

/// Whether a task was created for a submission: its kind is the one that the
/// name of the submission resolves to, and it is created pending on the tables
/// that hold that kind.
pub open spec fn created_for(
    before: crate::store::Tables,
    name: Seq<char>,
    input_data: Option<Seq<char>>,
    task: crate::models::TaskInstanceView,
) -> bool {
    &&& task.task_kind.name == name
    &&& before.kind_resolved(task.task_kind)
    &&& before.with_kind(task.task_kind).task_created(task.task_kind.id, input_data, task)
}

/// The tables once a task was created for a submission.
pub open spec fn tables_with_created(
    before: crate::store::Tables,
    task: crate::models::TaskInstanceView,
) -> crate::store::Tables {
    before.with_kind(task.task_kind).with_task(task.task_kind.id, task)
}

/// What the submission of a task does, for each way in which it can end.
///
/// `before` and `after` are the tables, `registry` the registered workers,
/// `cursor` and `cursor_now` the round-robin cursor and `log` and `log_now` the
/// operations that the driver has accepted, before and after the submission.
pub open spec fn submission(
    before: crate::store::Tables,
    after: crate::store::Tables,
    registry: Seq<crate::models::WorkerView>,
    cursor: int,
    cursor_now: int,
    log: Seq<crate::driver::Operation>,
    log_now: Seq<crate::driver::Operation>,
    name: Seq<char>,
    input_data: Option<Seq<char>>,
    outcome: Result<(TaskInstance, Id), SubmitError>,
) -> bool {
    let selected = crate::broker::selected_position(registry, name, cursor);
    let moved = crate::broker::cursor_after(registry, name, cursor);
    match outcome {
        Ok((task, worker_id)) => {
            &&& created_for(before, name, input_data, task@)
            &&& after == tables_with_created(before, task@).with_task_assigned(task.id, worker_id)
            &&& selected matches Some(position) && registry[position].id == worker_id
            &&& cursor_now == moved
            &&& crate::models::json_payload(input_data) matches Some(payload) && log_now == log.push(
                publication_of(task@, worker_id, payload),
            )
            &&& input_data is None ==> crate::models::json_payload(input_data) == Some(
                crate::models::null_bytes(),
            )
        },
        Err(SubmitError::Kind(_)) => {
            &&& after == before
            &&& cursor_now == cursor
            &&& log_now == log
        },
        Err(SubmitError::Create(_)) => {
            &&& exists|kind: crate::models::TaskKindView|
                kind.name == name && before.kind_resolved(kind) && #[trigger] before.with_kind(kind)
                    == after
            &&& cursor_now == cursor
            &&& log_now == log
        },
        Err(SubmitError::Publish(task, error)) => {
            &&& created_for(before, name, input_data, task@)
            &&& after == tables_with_created(before, task@)
            &&& cursor_now == moved
            &&& log_now == log
            &&& match selected {
                None => error == BrokerError::NoAvailableWorker,
                Some(_) => error is Driver,
            }
        },
        Err(SubmitError::Assign(task, worker_id, _)) => {
            &&& created_for(before, name, input_data, task@)
            &&& after == tables_with_created(before, task@)
            &&& selected matches Some(position) && registry[position].id == worker_id
            &&& cursor_now == moved
            &&& crate::models::json_payload(input_data) matches Some(payload) && log_now == log.push(
                publication_of(task@, worker_id, payload),
            )
            &&& input_data is None ==> crate::models::json_payload(input_data) == Some(
                crate::models::null_bytes(),
            )
        },
    }
}

/// Submits a task: finds or creates its kind, creates the task as pending,
/// publishes it to the next worker that handles the kind, and assigns it to
/// that worker, which marks it queued.
///
/// The task is returned as it was created. Where a step fails, the steps
/// before it stand: a task that could not be published stays pending and
/// unassigned, and a message that was accepted is not taken back. The
/// registry is never changed. Where no worker handles the kind the submission
/// fails; otherwise the store and the driver decide. All of this is said of
/// tables that are well formed, which every protocol keeps them.
pub fn submit_task<S: TaskKindRepository + TaskInstanceRepository, B: BrokerCore>(
    store: &mut S,
    broker: &mut Broker<B>,
    input: CreateTaskInput,
) -> (r: Result<(TaskInstance, Id), SubmitError>)
    ensures
        old(store).tables().queued_tasks_assigned() ==> final(store).tables().queued_tasks_assigned(),
        old(broker).backed() ==> final(broker).backed(),
        final(broker).workers == old(broker).workers,
        final(broker).uri == old(broker).uri,
        final(store).tables().results == old(store).tables().results,
        final(store).tables().workers == old(store).tables().workers,
        old(store).tables().well_formed() ==> {
            &&& final(store).tables().well_formed()
            &&& submission(
                old(store).tables(),
                final(store).tables(),
                old(broker).registry(),
                old(broker).workers_index as int,
                final(broker).workers_index as int,
                old(broker).accepted@,
                final(broker).accepted@,
                input.task_kind_name@,
                crate::models::document_view(input.input_data),
                r,
            )
            &&& crate::broker::selected_position(
                old(broker).registry(),
                input.task_kind_name@,
                old(broker).workers_index as int,
            ) is None ==> r is Err
            &&& crate::dispatch_laws::dispatch_consistent(old(store).tables(), old(broker).accepted@)
                ==> crate::dispatch_laws::dispatch_consistent(
                final(store).tables(),
                final(broker).accepted@,
            )
        },
{
    let ghost before = store.tables();
    let kind = match store.get_or_create_task_kind(input.task_kind_name) {
        Ok(kind) => kind,
        Err(e) => {
            return Err(SubmitError::Kind(e));
        },
    };
    proof {
        if before.well_formed() {
            crate::store_laws::lemma_kind_resolution(before, kind@);
        }
    }
    let task = match store.create_task(kind.id, input.input_data) {
        Ok(task) => task,
        Err(e) => {
            return Err(SubmitError::Create(e));
        },
    };
    let ghost log = broker.accepted@;
    let ghost consistent = before.well_formed() && crate::dispatch_laws::dispatch_consistent(
        before,
        log,
    );
    proof {
        crate::store_laws::lemma_task_creation(
            before.with_kind(kind@),
            kind.id,
            crate::models::document_view(input.input_data),
            task@,
        );
        if before.well_formed() {
            assert(task@.task_kind == kind@);
        }
        if consistent {
            crate::dispatch_laws::lemma_consistent_after_store_change(
                before,
                before.with_kind(kind@),
                log,
            );
            crate::dispatch_laws::lemma_consistent_after_store_change(
                before.with_kind(kind@),
                store.tables(),
                log,
            );
        }
    }
    let worker_id = match broker.publish(&task) {
        Ok(worker_id) => worker_id,
        Err(e) => {
            return Err(SubmitError::Publish(task, e));
        },
    };
    proof {
        crate::store_laws::lemma_assignment(store.tables(), task.id, worker_id);
        if consistent {
            crate::dispatch_laws::lemma_unknown_task_unpublished(
                before.with_kind(kind@),
                log,
                task.id,
                worker_id.text(),
            );
            crate::dispatch_laws::lemma_consistent_after_publication(
                store.tables(),
                log,
                task.id,
                worker_id,
                broker.accepted@.last(),
            );
            assert(broker.accepted@ == log.push(broker.accepted@.last()));
        }
    }
    match store.assign_task_to_worker(&task.id, &worker_id) {
        Ok(_) => Ok((task, worker_id)),
        Err(e) => Err(SubmitError::Assign(task, worker_id, e)),
    }
}

/// The words for the step at which a submission ended.
pub open spec fn submit_failure_text(error: SubmitError) -> Seq<char> {
    match error {
        SubmitError::Kind(e) => "Failed to get/create task kind"@ + ": "@ + e.text(),
        SubmitError::Create(e) => "Failed to create task"@ + ": "@ + e.text(),
        SubmitError::Publish(_, e) => "Failed to publish task to broker"@ + ": "@ + e.text(),
        SubmitError::Assign(_, _, e) => "Failed to assign task to worker"@ + ": "@ + e.text(),
    }
}

/// The answer to a submission that failed: an internal error, whatever the
/// step, with the words for the step and its cause.
pub fn submit_rejection(error: &SubmitError) -> (r: Rejection)
    ensures
        r.status == StatusCode::InternalServerError,
        r.message@ == submit_failure_text(*error),
{
    match error {
        SubmitError::Kind(e) => rejection(
            StatusCode::InternalServerError,
            "Failed to get/create task kind",
            e.message(),
        ),
        SubmitError::Create(e) => rejection(
            StatusCode::InternalServerError,
            "Failed to create task",
            e.message(),
        ),
        SubmitError::Publish(_, e) => rejection(
            StatusCode::InternalServerError,
            "Failed to publish task to broker",
            e.message(),
        ),
        SubmitError::Assign(_, _, e) => rejection(
            StatusCode::InternalServerError,
            "Failed to assign task to worker",
            e.message(),
        ),
    }
}

/// Answers the submission of a task: created, with the task as it was
/// created, or an internal error.
pub fn create_task<S: TaskKindRepository + TaskInstanceRepository, B: BrokerCore>(
    store: &mut S,
    broker: &mut Broker<B>,
    input: CreateTaskInput,
) -> (r: Result<(StatusCode, TaskInstance), Rejection>)
    ensures
        old(store).tables().queued_tasks_assigned() ==> final(store).tables().queued_tasks_assigned(),
        old(broker).backed() ==> final(broker).backed(),
        final(broker).workers == old(broker).workers,
        final(broker).uri == old(broker).uri,
        r matches Ok((code, _)) ==> code == StatusCode::Created,
        r matches Err(answer) ==> answer.status == StatusCode::InternalServerError,
        old(store).tables().well_formed() ==> final(store).tables().well_formed(),
        old(store).tables().well_formed() && crate::dispatch_laws::dispatch_consistent(
            old(store).tables(),
            old(broker).accepted@,
        ) ==> crate::dispatch_laws::dispatch_consistent(
            final(store).tables(),
            final(broker).accepted@,
        ),
        old(store).tables().well_formed() && crate::broker::selected_position(
            old(broker).registry(),
            input.task_kind_name@,
            old(broker).workers_index as int,
        ) is None ==> r is Err,
        old(store).tables().well_formed() ==> exists|outcome: Result<(TaskInstance, Id), SubmitError>|
            {
                &&& #[trigger] submission(
                    old(store).tables(),
                    final(store).tables(),
                    old(broker).registry(),
                    old(broker).workers_index as int,
                    final(broker).workers_index as int,
                    old(broker).accepted@,
                    final(broker).accepted@,
                    input.task_kind_name@,
                    crate::models::document_view(input.input_data),
                    outcome,
                )
                &&& match outcome {
                    Ok((task, _)) => r == Ok::<(StatusCode, TaskInstance), Rejection>(
                        (StatusCode::Created, task),
                    ),
                    Err(error) => r is Err && r->Err_0.status == StatusCode::InternalServerError
                        && r->Err_0.message@ == submit_failure_text(error),
                }
            },
{
    match submit_task(store, broker, input) {
        Ok((task, worker_id)) => {
            proof {
                let outcome = Ok::<(TaskInstance, Id), SubmitError>((task, worker_id));
                assert(old(store).tables().well_formed() ==> submission(
                    old(store).tables(),
                    store.tables(),
                    old(broker).registry(),
                    old(broker).workers_index as int,
                    broker.workers_index as int,
                    old(broker).accepted@,
                    broker.accepted@,
                    input.task_kind_name@,
                    crate::models::document_view(input.input_data),
                    outcome,
                ));
            }
            Ok((StatusCode::Created, task))
        },
        Err(error) => {
            let answer = submit_rejection(&error);
            proof {
                let outcome = Err::<(TaskInstance, Id), SubmitError>(error);
                assert(old(store).tables().well_formed() ==> submission(
                    old(store).tables(),
                    store.tables(),
                    old(broker).registry(),
                    old(broker).workers_index as int,
                    broker.workers_index as int,
                    old(broker).accepted@,
                    broker.accepted@,
                    input.task_kind_name@,
                    crate::models::document_view(input.input_data),
                    outcome,
                ));
            }
            Err(answer)
        },
    }
}

/// What a worker sends to report the end of a task.
#[derive(Debug, PartialEq, Eq)]
pub struct TaskResultInput {
    pub data: Json,
    pub is_error: bool,
}

/// What a worker sends to register.
#[derive(Debug, PartialEq, Eq)]
pub struct RegisterWorkerInput {
    pub name: String,
    pub task_kinds: Vec<String>,
}

/// The words that answer a read of a task that the store failed on.
pub open spec fn task_read_failed_answer() -> Seq<char> {
    "Failed to get task"@ + ": "@ + StoreError::Failed.text()
}

/// The answer to a failed read of a task: not found where the store reports
/// that it has no such task, with the given words before and " not found"
/// after the identifier; an internal error where the store failed.
pub fn task_read_rejection(id: &Id, error: StoreError, not_found_prefix: &str) -> (r: Rejection)
    ensures
        match error {
            StoreError::NotFound => r.status == StatusCode::NotFound && r.message@
                == not_found_prefix@ + id.text() + " not found"@,
            StoreError::Failed => r.status == StatusCode::InternalServerError && r.message@
                == task_read_failed_answer(),
        },
{
    match error {
        StoreError::NotFound => Rejection {
            status: StatusCode::NotFound,
            message: not_found_prefix.to_owned().concat(id.to_string().as_str()).concat(
                " not found",
            ),
        },
        StoreError::Failed => rejection(
            StatusCode::InternalServerError,
            "Failed to get task",
            StoreError::Failed.message(),
        ),
    }
}

/// What a read of a task is answered with, for each outcome of the store: the
/// task where it was read, not found where the store reports that it has no
/// such task, an internal error where the store failed.
pub fn task_read_answer(id: &Id, outcome: Result<TaskInstance, StoreError>) -> (r: Result<
    TaskInstance,
    Rejection,
>)
    ensures
        match outcome {
            Ok(task) => r == Ok::<TaskInstance, Rejection>(task),
            Err(StoreError::NotFound) => r is Err && r->Err_0.status == StatusCode::NotFound
                && r->Err_0.message@ == "Task with ID "@ + id.text() + " not found"@,
            Err(StoreError::Failed) => r is Err && r->Err_0.status
                == StatusCode::InternalServerError && r->Err_0.message@
                == task_read_failed_answer(),
        },
{
    match outcome {
        Ok(task) => Ok(task),
        Err(error) => Err(task_read_rejection(id, error, "Task with ID ")),
    }
}

/// Answers the request for a task: the task with its latest result, not found
/// where the store reports that it has no such task, an internal error where
/// the store fails.
pub fn get_task_by_id<S: TaskInstanceRepository>(store: &S, id: &Id) -> (r: Result<
    TaskInstance,
    Rejection,
>)
    ensures
        match r {
            Ok(task) => store.tables().task_row(*id) matches Some(row) && task@
                == store.tables().task_of(row, true),
            Err(answer) => {
                ||| {
                    &&& answer.status == StatusCode::NotFound
                    &&& store.tables().task_row(*id) is None
                    &&& answer.message@ == "Task with ID "@ + id.text() + " not found"@
                }
                ||| {
                    &&& answer.status == StatusCode::InternalServerError
                    &&& answer.message@ == task_read_failed_answer()
                }
            },
        },
        store.tables().task_row(*id) is None ==> r is Err,
{
    task_read_answer(id, store.get_task_by_id(id, true))
}

/// The words that answer a status that is not recognised.
pub open spec fn invalid_status_answer(text: Seq<char>) -> Seq<char> {
    "Invalid task status: "@ + crate::status::invalid_status_message(
        crate::status::lowercased(text),
    )
        + ". Valid statuses are: pending, queued, running, completed, failed, cancelled"@
}

/// The words that answer a report on a task that the store does not have.
pub open spec fn task_not_found_answer(id: Id) -> Seq<char> {
    "Task with id "@ + id.text() + " not found"@
}

/// Sets the status of a task as a worker reports it.
///
/// The status is read from its name, ignoring case, before anything else: a
/// name that is not recognised is a bad request, whether or not the task
/// exists. A task that the store does not have is answered as not found, a
/// store that fails as an internal error. No transition is refused: any status
/// may follow any other.
pub fn update_task_status<S: TaskInstanceRepository>(store: &mut S, id: &Id, task_status: &str) -> (r:
    Result<StatusCode, Rejection>)
    ensures
        old(store).tables().well_formed() ==> final(store).tables().well_formed(),
        forall|log: Seq<crate::driver::Operation>| #[trigger]
            crate::dispatch_laws::dispatch_consistent(old(store).tables(), log)
                ==> crate::dispatch_laws::dispatch_consistent(final(store).tables(), log),
        match crate::status::status_named(crate::status::lowercased(task_status@)) {
            None => {
                &&& r is Err
                &&& r->Err_0.status == StatusCode::BadRequest
                &&& r->Err_0.message@ == invalid_status_answer(task_status@)
                &&& final(store).tables() == old(store).tables()
            },
            Some(status) => match r {
                Ok(code) => {
                    &&& code == StatusCode::Success
                    &&& old(store).tables().task_row(*id) is Some
                    &&& final(store).tables() == old(store).tables().with_task_status(*id, status)
                    &&& old(store).tables().queued_tasks_assigned() && !(status is Queued && old(store).tables().has_unassigned(*id)) ==> final(store).tables().queued_tasks_assigned()
                },
                Err(answer) => {
                    &&& final(store).tables() == old(store).tables()
                    &&& {
                        ||| answer.status == StatusCode::NotFound && answer.message@
                            == task_not_found_answer(*id) && old(store).tables().task_row(*id)
                            is None
                        ||| answer.status == StatusCode::InternalServerError && answer.message@
                            == task_read_failed_answer()
                        ||| answer.status == StatusCode::InternalServerError && old(store).tables().task_row(*id) is Some
                            && answer.message@ == "Failed to update task status"@ + ": "@
                            + StoreError::Failed.text()
                    }
                },
            },
        },
        old(store).tables().task_row(*id) is None ==> r is Err,
{
    let status = match TaskStatus::parse(task_status) {
        Ok(status) => status,
        Err(message) => {
            return Err(
                Rejection {
                    status: StatusCode::BadRequest,
                    message: "Invalid task status: ".to_owned().concat(message.as_str()).concat(
                        ". Valid statuses are: pending, queued, running, completed, failed, cancelled",
                    ),
                },
            );
        },
    };
    let task = match store.get_task_by_id(id, true) {
        Ok(task) => task,
        Err(error) => {
            return Err(task_read_rejection(id, error, "Task with id "));
        },
    };
    proof {
        crate::store_laws::lemma_lookup_none(
            store.tables().tasks,
            crate::store::task_has_id(*id),
        );
        crate::store_laws::lemma_status_update(store.tables(), *id, status);
    }
    match store.update_task_status(&task.id, status) {
        Ok(_) => {
            proof {
                assert forall|log: Seq<crate::driver::Operation>| #[trigger]
                    crate::dispatch_laws::dispatch_consistent(
                        old(store).tables(),
                        log,
                    ) implies crate::dispatch_laws::dispatch_consistent(store.tables(), log) by {
                    crate::dispatch_laws::lemma_consistent_after_store_change(
                        old(store).tables(),
                        store.tables(),
                        log,
                    );
                }
            }
            Ok(StatusCode::Success)
        },
        Err(e) => Err(
            rejection(StatusCode::InternalServerError, "Failed to update task status", e.message()),
        ),
    }
}

/// Records the end of a task as a worker reports it: a result that carries
/// the data as output and completes the task, or one that carries it as error
/// and fails the task. The result is credited to the worker that the task is
/// assigned to.
///
/// A task that the store does not have is answered as not found; a task that
/// is assigned to no worker, and a store that fails, as an internal error.
pub fn update_task_result<S: TaskInstanceRepository>(
    store: &mut S,
    id: &Id,
    result: TaskResultInput,
) -> (r: Result<StatusCode, Rejection>)
    ensures
        old(store).tables().well_formed() ==> final(store).tables().well_formed(),
        old(store).tables().queued_tasks_assigned() ==> final(store).tables().queued_tasks_assigned(),
        forall|log: Seq<crate::driver::Operation>| #[trigger]
            crate::dispatch_laws::dispatch_consistent(old(store).tables(), log)
                ==> crate::dispatch_laws::dispatch_consistent(final(store).tables(), log),
        match r {
            Ok(code) => {
                &&& code == StatusCode::Success
                &&& old(store).tables().task_row(*id) matches Some(row) && row.assigned_to matches Some(
                    worker_id,
                ) && exists|uploaded: crate::models::TaskResultView|
                    {
                        &&& crate::store::uploaded(
                            uploaded,
                            *id,
                            worker_id,
                            if result.is_error {
                                None
                            } else {
                                Some(result.data@)
                            },
                            if result.is_error {
                                Some(result.data@)
                            } else {
                                None
                            },
                        )
                        &&& #[trigger] old(store).tables().with_result(uploaded) == final(store).tables()
                    }
            },
            Err(answer) => {
                &&& final(store).tables() == old(store).tables()
                &&& {
                    ||| answer.status == StatusCode::NotFound && answer.message@
                        == task_not_found_answer(*id) && old(store).tables().task_row(*id) is None
                    ||| answer.status == StatusCode::InternalServerError && answer.message@
                        == task_read_failed_answer()
                    ||| {
                        &&& answer.status == StatusCode::InternalServerError
                        &&& old(store).tables().task_row(*id) matches Some(row)
                        &&& answer.message@ == "Failed to update task result/error"@ + ": "@ + (
                        if row.assigned_to is None {
                            "the task is assigned to no worker"@
                        } else {
                            StoreError::Failed.text()
                        })
                    }
                }
            },
        },
        old(store).tables().task_row(*id) is None ==> r is Err,
        old(store).tables().task_row(*id) matches Some(row) && row.assigned_to is None ==> r is Err,
{
    let task = match store.get_task_by_id(id, true) {
        Ok(task) => task,
        Err(error) => {
            return Err(task_read_rejection(id, error, "Task with id "));
        },
    };
    proof {
        crate::store_laws::lemma_lookup_none(
            store.tables().tasks,
            crate::store::task_has_id(*id),
        );
    }
    let worker_id = match task.assigned_to {
        Some(worker_id) => worker_id,
        None => {
            return Err(
                rejection(
                    StatusCode::InternalServerError,
                    "Failed to update task result/error",
                    "the task is assigned to no worker",
                ),
            );
        },
    };
    let uploaded = if result.is_error {
        store.upload_task_error(&task.id, &worker_id, result.data)
    } else {
        store.upload_task_result(&task.id, &worker_id, result.data)
    };
    match uploaded {
        Ok(stored) => {
            proof {
                crate::store_laws::lemma_upload(old(store).tables(), stored@);
                assert forall|log: Seq<crate::driver::Operation>| #[trigger]
                    crate::dispatch_laws::dispatch_consistent(
                        old(store).tables(),
                        log,
                    ) implies crate::dispatch_laws::dispatch_consistent(store.tables(), log) by {
                    crate::dispatch_laws::lemma_consistent_after_store_change(
                        old(store).tables(),
                        store.tables(),
                        log,
                    );
                }
            }
            Ok(StatusCode::Success)
        },
        Err(e) => Err(
            rejection(
                StatusCode::InternalServerError,
                "Failed to update task result/error",
                e.message(),
            ),
        ),
    }
}

/// The texts of a list of names, in order.
pub open spec fn names_view(names: Seq<String>) -> Seq<Seq<char>> {
    Seq::new(names.len(), |i: int| names[i]@)
}

/// The tables once each of the given kinds was asked for by its name, in
/// order.
pub open spec fn with_kinds(
    before: crate::store::Tables,
    kinds: Seq<crate::models::TaskKindView>,
) -> crate::store::Tables
    decreases kinds.len(),
{
    if kinds.len() == 0 {
        before
    } else {
        with_kinds(before, kinds.drop_last()).with_kind(kinds.last())
    }
}

/// Whether the kinds are what asking for the names, one after the other,
/// gives on the tables.
pub open spec fn kinds_resolved(
    before: crate::store::Tables,
    names: Seq<Seq<char>>,
    kinds: Seq<crate::models::TaskKindView>,
) -> bool {
    &&& kinds.len() == names.len()
    &&& forall|i: int|
        0 <= i < kinds.len() ==> (#[trigger] kinds[i]).name == names[i] && with_kinds(
            before,
            kinds.subrange(0, i),
        ).kind_resolved(kinds[i])
}

/// What the store holds, and what the answer says, where a registration did
/// not end in success: the kinds that were resolved before the step that
/// failed and, where it was the coordinator that failed, the worker as well.
pub open spec fn registration_stopped(
    before: crate::store::Tables,
    after: crate::store::Tables,
    names: Seq<Seq<char>>,
    name: Seq<char>,
    message: Seq<char>,
) -> bool {
    exists|kinds: Seq<crate::models::TaskKindView>|
        {
            &&& kinds.len() <= names.len()
            &&& #[trigger] kinds_resolved(before, names.subrange(0, kinds.len() as int), kinds)
            &&& {
                ||| {
                    &&& kinds.len() < names.len()
                    &&& after == with_kinds(before, kinds)
                    &&& message == "Failed to get/create task kind"@ + ": "@
                        + StoreError::Failed.text()
                }
                ||| {
                    &&& kinds.len() == names.len()
                    &&& after == with_kinds(before, kinds)
                    &&& message == "Failed to register worker"@ + ": "@ + StoreError::Failed.text()
                }
                ||| {
                    &&& kinds.len() == names.len()
                    &&& with_kinds(before, kinds).kinds_acceptable(kinds)
                    &&& exists|id: Id, at: crate::time_format::Timestamp|
                        after == #[trigger] with_kinds(before, kinds).with_worker_registered(
                            id,
                            name,
                            kinds,
                            at,
                        )
                    &&& exists|e: crate::driver::DriverError|
                        message == "Failed to register worker in broker"@ + ": "@
                            + #[trigger] e.text()
                }
            }
        }
}

/// The words that answer a request for a worker that does not exist.
pub open spec fn worker_not_found_answer(id: Id) -> Seq<char> {
    "Worker with ID "@ + id.text() + " not found"@
}

/// Registers a worker: finds or creates each of its kinds, gives it a fresh
/// identifier, records it in the store, declares its queue and takes it into
/// the registry of the coordinator.
///
/// The answer is created, with the worker as the store recorded it, which is
/// active, or an internal error. Where a step fails, the steps before it
/// stand, and the coordinator is as it was.
pub fn register_worker<S: TaskKindRepository + WorkerRepository, B: BrokerCore>(
    store: &mut S,
    broker: &mut Broker<B>,
    input: RegisterWorkerInput,
) -> (r: Result<(StatusCode, Worker), Rejection>)
    ensures
        old(store).tables().well_formed() ==> final(store).tables().well_formed(),
        crate::dispatch_laws::dispatch_consistent(old(store).tables(), old(broker).accepted@)
            ==> crate::dispatch_laws::dispatch_consistent(
            final(store).tables(),
            final(broker).accepted@,
        ),
        old(broker).backed() ==> final(broker).backed(),
        final(store).tables().tasks == old(store).tables().tasks,
        final(store).tables().results == old(store).tables().results,
        final(broker).workers_index == old(broker).workers_index,
        final(broker).uri == old(broker).uri,
        match r {
            Ok((code, worker)) => {
                let kinds = worker@.task_kind;
                let resolved = with_kinds(old(store).tables(), kinds);
                &&& code == StatusCode::Created
                &&& worker@.name == input.name@
                &&& worker@.active
                &&& final(store).tables().worker_row(worker.id) matches Some(row) && row.active
                    && row.registered_at == worker@.registered_at && row.name == input.name@
                    && row.kinds == crate::store::kind_ids(kinds)
                &&& kinds_resolved(old(store).tables(), names_view(input.task_kinds@), kinds)
                &&& resolved.kinds_acceptable(kinds)
                &&& final(store).tables() == resolved.with_worker_registered(
                    worker.id,
                    input.name@,
                    kinds,
                    worker.registered_at,
                )
                &&& final(broker).registry() == old(broker).registry().push(worker@)
                &&& final(broker).accepted@ == old(broker).accepted@.push(
                    crate::driver::Operation::DeclareQueue {
                        exchange: crate::broker::SUBMISSION_EXCHANGE@,
                        queue: worker.id.text(),
                        routing_key: worker.id.text(),
                    },
                )
            },
            Err(answer) => {
                &&& answer.status == StatusCode::InternalServerError
                &&& final(broker).workers == old(broker).workers
                &&& final(broker).accepted@ == old(broker).accepted@
                &&& registration_stopped(
                    old(store).tables(),
                    final(store).tables(),
                    names_view(input.task_kinds@),
                    input.name@,
                    answer.message@,
                )
            },
        },
{
    let ghost before = store.tables();
    let ghost names = names_view(input.task_kinds@);
    let mut task_kinds: Vec<TaskKind> = Vec::new();
    let mut i: usize = 0;
    assert(crate::models::kinds_view(task_kinds@) =~= Seq::empty());
    while i < input.task_kinds.len()
        invariant
            i <= input.task_kinds.len(),
            task_kinds.len() == i,
            names == names_view(input.task_kinds@),
            before == old(store).tables(),
            *broker == *old(broker),
            before.well_formed() ==> store.tables().well_formed(),
            store.tables() == with_kinds(before, crate::models::kinds_view(task_kinds@)),
            store.tables().tasks == before.tasks,
            store.tables().results == before.results,
            kinds_resolved(
                before,
                names.subrange(0, i as int),
                crate::models::kinds_view(task_kinds@),
            ),
        decreases input.task_kinds.len() - i,
    {
        let ghost earlier = crate::models::kinds_view(task_kinds@);
        let ghost tables = store.tables();
        let kind = match store.get_or_create_task_kind(input.task_kinds[i].clone()) {
            Ok(kind) => kind,
            Err(e) => {
                proof {
                    assert(kinds_resolved(before, names.subrange(0, earlier.len() as int), earlier));
                }
                return Err(
                    rejection(
                        StatusCode::InternalServerError,
                        "Failed to get/create task kind",
                        e.message(),
                    ),
                );
            },
        };
        proof {
            if before.well_formed() {
                crate::store_laws::lemma_kind_resolution(tables, kind@);
            }
        }
        task_kinds.push(kind);
        proof {
            let now = crate::models::kinds_view(task_kinds@);
            assert(now.drop_last() =~= earlier);
            assert(now.last() == kind@);
            assert forall|j: int| 0 <= j < now.len() implies (#[trigger] now[j]).name
                == names.subrange(0, i as int + 1)[j] && with_kinds(
                before,
                now.subrange(0, j),
            ).kind_resolved(now[j]) by {
                if j < i {
                    assert(now[j] == earlier[j]);
                    assert(now.subrange(0, j) =~= earlier.subrange(0, j));
                    assert(names.subrange(0, i as int)[j] == names[j]);
                } else {
                    assert(now.subrange(0, j) =~= earlier);
                }
            }
        }
        i = i + 1;
    }
    assert(names.subrange(0, i as int) =~= names);
    let ghost resolved = store.tables();
    let ghost kinds = crate::models::kinds_view(task_kinds@);
    let id = Id::random();
    let worker = match store.register_worker(id, input.name, task_kinds) {
        Ok(worker) => worker,
        Err(e) => {
            proof {
                assert(kinds_resolved(before, names.subrange(0, kinds.len() as int), kinds));
            }
            return Err(
                rejection(StatusCode::InternalServerError, "Failed to register worker", e.message()),
            );
        },
    };
    proof {
        if before.well_formed() {
            crate::store_laws::lemma_registration(
                resolved,
                id,
                input.name@,
                kinds,
                worker.registered_at,
            );
        }
        crate::store_laws::lemma_registered_row(
            resolved,
            id,
            input.name@,
            kinds,
            worker.registered_at,
        );
        assert(worker@.task_kind == kinds);
        assert(store.tables() == resolved.with_worker_registered(
            id,
            input.name@,
            kinds,
            worker.registered_at,
        ));
    }
    proof {
        if crate::dispatch_laws::dispatch_consistent(before, broker.accepted@) {
            crate::dispatch_laws::lemma_consistent_after_store_change(
                before,
                store.tables(),
                broker.accepted@,
            );
            crate::dispatch_laws::lemma_consistent_after_other_operation(
                store.tables(),
                broker.accepted@,
                crate::driver::Operation::DeclareQueue {
                    exchange: crate::broker::SUBMISSION_EXCHANGE@,
                    queue: worker.id.text(),
                    routing_key: worker.id.text(),
                },
            );
        }
    }
    proof {
        assert(kinds_resolved(before, names.subrange(0, kinds.len() as int), kinds));
        assert(store.tables() == with_kinds(before, kinds).with_worker_registered(
            id,
            input.name@,
            kinds,
            worker.registered_at,
        ));
    }
    match broker.register_worker(worker.clone()) {
        Ok(_) => Ok((StatusCode::Created, worker)),
        Err(e) => Err(
            rejection(
                StatusCode::InternalServerError,
                "Failed to register worker in broker",
                e.message(),
            ),
        ),
    }
}

/// Unregisters a worker: marks it inactive in the store, takes it out of the
/// registry of the coordinator and deletes its queue.
///
/// A worker that the store does not know is answered as not found, and
/// nothing changes. A store or a coordinator that fails is answered as an
/// internal error; the worker is then inactive in the store where the
/// coordinator failed.
pub fn unregister_worker<S: WorkerRepository, B: BrokerCore>(
    store: &mut S,
    broker: &mut Broker<B>,
    id: &Id,
) -> (r: Result<StatusCode, Rejection>)
    ensures
        old(store).tables().well_formed() ==> final(store).tables().well_formed(),
        crate::dispatch_laws::dispatch_consistent(old(store).tables(), old(broker).accepted@)
            ==> crate::dispatch_laws::dispatch_consistent(
            final(store).tables(),
            final(broker).accepted@,
        ),
        old(broker).backed() && crate::broker::distinct_ids(old(broker).registry()) ==> final(broker).backed() && crate::broker::distinct_ids(final(broker).registry()),
        r is Ok && crate::broker::distinct_ids(old(broker).registry())
            ==> !crate::driver::queues_after(final(broker).accepted@).contains(id.text()),
        final(broker).workers_index == old(broker).workers_index,
        final(broker).uri == old(broker).uri,
        match r {
            Ok(code) => {
                let position = crate::broker::first_position_of(old(broker).registry(), *id, 0);
                &&& code == StatusCode::Success
                &&& old(store).tables().worker_row(*id) is Some
                &&& final(store).tables() == old(store).tables().with_worker_changed(
                    *id,
                    |row: crate::store::WorkerRow| crate::store::WorkerRow { active: false, ..row },
                )
                &&& position < old(broker).registry().len()
                &&& final(broker).registry() == old(broker).registry().remove(position)
                &&& final(broker).accepted@ == old(broker).accepted@.push(
                    crate::driver::Operation::DeleteQueue { queue: id.text() },
                )
            },
            Err(answer) => {
                &&& final(broker).accepted@ == old(broker).accepted@
                &&& {
                    ||| {
                        &&& answer.status == StatusCode::NotFound
                        &&& answer.message@ == worker_not_found_answer(*id)
                        &&& old(store).tables().worker_row(*id) is None
                        &&& final(store).tables() == old(store).tables()
                        &&& final(broker).workers == old(broker).workers
                    }
                    ||| {
                        &&& answer.status == StatusCode::InternalServerError
                        &&& answer.message@ == "Failed to deactivate worker"@ + ": "@
                            + StoreError::Failed.text()
                        &&& final(store).tables() == old(store).tables()
                        &&& final(broker).workers == old(broker).workers
                    }
                    ||| {
                        let position = crate::broker::first_position_of(
                            old(broker).registry(),
                            *id,
                            0,
                        );
                        &&& answer.status == StatusCode::InternalServerError
                        &&& old(store).tables().worker_row(*id) is Some
                        &&& final(store).tables() == old(store).tables().with_worker_changed(
                            *id,
                            |row: crate::store::WorkerRow|
                                crate::store::WorkerRow { active: false, ..row },
                        )
                        &&& if position < old(broker).registry().len() {
                            &&& final(broker).registry() == old(broker).registry().remove(position)
                            &&& exists|e: crate::driver::DriverError|
                                answer.message@ == "Failed to unregister worker from broker"@
                                    + ": "@ + #[trigger] e.text()
                        } else {
                            &&& final(broker).workers == old(broker).workers
                            &&& answer.message@ == "Failed to unregister worker from broker"@
                                + ": "@ + BrokerError::UnknownWorker.text()
                        }
                    }
                }
            },
        },
        old(store).tables().worker_row(*id) is None ==> r is Err && final(store).tables() == old(store).tables() && final(broker).workers == old(broker).workers,
{
    match store.set_worker_active(id, false) {
        Ok(_) => {},
        Err(StoreError::NotFound) => {
            return Err(
                Rejection {
                    status: StatusCode::NotFound,
                    message: "Worker with ID ".to_owned().concat(id.to_string().as_str()).concat(
                        " not found",
                    ),
                },
            );
        },
        Err(StoreError::Failed) => {
            return Err(
                rejection(
                    StatusCode::InternalServerError,
                    "Failed to deactivate worker",
                    StoreError::Failed.message(),
                ),
            );
        },
    }
    proof {
        if old(store).tables().well_formed() {
            crate::store_laws::lemma_activity(old(store).tables(), *id, false);
        }
        if crate::dispatch_laws::dispatch_consistent(old(store).tables(), broker.accepted@) {
            crate::dispatch_laws::lemma_consistent_after_store_change(
                old(store).tables(),
                store.tables(),
                broker.accepted@,
            );
            crate::dispatch_laws::lemma_consistent_after_other_operation(
                store.tables(),
                broker.accepted@,
                crate::driver::Operation::DeleteQueue { queue: id.text() },
            );
        }
    }
    match broker.remove_worker(id) {
        Ok(_) => Ok(StatusCode::Success),
        Err(e) => Err(
            rejection(
                StatusCode::InternalServerError,
                "Failed to unregister worker from broker",
                e.message(),
            ),
        ),
    }
}

} // verus!
