//! Fixtures: a coordinator on a driver that reaches no broker, and small sets
//! of task kinds, workers and tasks.

use crate::broker::Broker;
use crate::driver::MockBrokerCore;
use crate::ident::Id;
use crate::models::{Json, TaskInstance, TaskKind, Worker};
use crate::status::TaskStatus;
use crate::time_format::Timestamp;
use vstd::prelude::*;

verus! {

/// A coordinator with no worker registered, on a driver that accepts every
/// operation and has accepted none yet.
pub fn get_mock_broker() -> (r: Broker<MockBrokerCore>)
    ensures
        r.uri@ == "mock"@,
        r.workers@.len() == 0,
        r.workers_index == 0,
        r.registry() == Seq::<crate::models::WorkerView>::empty(),
        r.accepted@ == Seq::<crate::driver::Operation>::empty(),
        r.backed(),
{
    let made = Broker {
        uri: "mock".to_owned(),
        broker: MockBrokerCore::new(),
        workers: Vec::new(),
        workers_index: 0,
        accepted: Ghost(Seq::empty()),
    };
    assert(made.registry() =~= Seq::<crate::models::WorkerView>::empty());
    made
}

/// Two task kinds, named `task1` and `task2`.
pub fn setup_task_kinds() -> (r: Vec<TaskKind>)
    ensures
        r.len() == 2,
        r[0]@.name == "task1"@,
        r[1]@.name == "task2"@,
{
    let mut kinds: Vec<TaskKind> = Vec::new();
    kinds.push(TaskKind::new("task1".to_owned()));
    kinds.push(TaskKind::new("task2".to_owned()));
    kinds
}

/// Three active workers: the first handles the first kind, the second the
/// second kind, and the third all the kinds that are given.
pub fn setup_workers(task_kinds: Vec<TaskKind>) -> (r: Vec<Worker>)
    requires
        task_kinds.len() >= 2,
    ensures
        r.len() == 3,
        r[0]@.name == "worker1"@,
        r[0]@.task_kind == seq![task_kinds[0]@],
        r[1]@.name == "worker2"@,
        r[1]@.task_kind == seq![task_kinds[1]@],
        r[2]@.name == "worker3"@,
        r[2]@.task_kind == crate::models::kinds_view(task_kinds@),
        forall|i: int| 0 <= i < 3 ==> (#[trigger] r[i])@.active,
{
    let mut first: Vec<TaskKind> = Vec::new();
    first.push(task_kinds[0].clone());
    assert(crate::models::kinds_view(first@) =~= seq![task_kinds[0]@]);
    let mut second: Vec<TaskKind> = Vec::new();
    second.push(task_kinds[1].clone());
    assert(crate::models::kinds_view(second@) =~= seq![task_kinds[1]@]);
    let mut workers: Vec<Worker> = Vec::new();
    workers.push(Worker::new("worker1".to_owned(), first));
    workers.push(Worker::new("worker2".to_owned(), second));
    workers.push(Worker::new("worker3".to_owned(), task_kinds));
    workers
}

/// A pending, unassigned task of the given kind whose input is the document
/// `{"key":"value"}`, that text being JSON.
fn sample_task(kind: &TaskKind) -> (r: TaskInstance)
    ensures
        r@.task_kind == kind@,
        r@.input_data is Some ==> r@.input_data == Some("{\"key\":\"value\"}"@),
        r@.input_data is Some <==> crate::models::json_payload(Some("{\"key\":\"value\"}"@))
            is Some,
        r@.status == TaskStatus::Pending,
        r@.assigned_to is None,
        r@.result is None,
{
    TaskInstance {
        id: Id::random(),
        task_kind: kind.clone(),
        input_data: Json::new("{\"key\":\"value\"}".to_owned()),
        status: TaskStatus::Pending,
        created_at: Timestamp::now(),
        assigned_to: None,
        result: None,
    }
}

/// Three pending tasks: one of the first kind and two of the second.
pub fn setup_tasks(task_kinds: Vec<TaskKind>) -> (r: Vec<TaskInstance>)
    requires
        task_kinds.len() >= 2,
    ensures
        r.len() == 3,
        r[0]@.task_kind == task_kinds[0]@,
        r[1]@.task_kind == task_kinds[1]@,
        r[2]@.task_kind == task_kinds[1]@,
        forall|i: int|
            0 <= i < 3 ==> (#[trigger] r[i])@.status == TaskStatus::Pending && r[i]@.assigned_to is None,
{
    let mut tasks: Vec<TaskInstance> = Vec::new();
    tasks.push(sample_task(&task_kinds[0]));
    tasks.push(sample_task(&task_kinds[1]));
    tasks.push(sample_task(&task_kinds[1]));
    tasks
}

} // verus!
