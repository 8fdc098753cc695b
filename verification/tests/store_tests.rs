use fasttq::ident::Id;
use fasttq::memory_store::MemoryStore;
use fasttq::models::{Json, TaskKind};
use fasttq::status::TaskStatus;
use fasttq::store::{
    StoreError, TaskInstanceRepository, TaskKindRepository, WorkerRepository,
};
use fasttq::time_format::Timestamp;

fn json(text: &str) -> Json {
    Json::new(text.to_string()).unwrap()
}

/// Verifies that a new task kind is created with the name that was asked for
#[test]
fn create_new_task_kind() {
    let mut repo = MemoryStore::new();
    let name = "Test Task".to_string();

    let task_kind = repo.get_or_create_task_kind(name.clone()).unwrap();
    assert_eq!(task_kind.name, name);
}

/// Verifies that getting an existing task kind returns the same ID
#[test]
fn get_existing_task_kind() {
    let mut repo = MemoryStore::new();
    let name = "Test Task".to_string();

    let first = repo.get_or_create_task_kind(name.clone()).unwrap();
    let second = repo.get_or_create_task_kind(name).unwrap();

    assert_eq!(first.id, second.id);
    assert_eq!(first.name, second.name);
    assert_eq!(repo.kinds.len(), 1);
}

/// Verifies that get_all_task_kinds returns all created task kinds
#[test]
fn get_all_task_kinds_test() {
    let mut repo = MemoryStore::new();

    let kind1 = repo.get_or_create_task_kind("Task 1".to_string()).unwrap();
    let kind2 = repo.get_or_create_task_kind("Task 2".to_string()).unwrap();

    let all_kinds = repo.get_all_task_kinds().unwrap();

    assert_eq!(all_kinds.len(), 2);
    assert!(all_kinds.iter().any(|k| k.id == kind1.id));
    assert!(all_kinds.iter().any(|k| k.id == kind2.id));
    assert_eq!(all_kinds, vec![kind1, kind2]);
}

/// Creates a task and then retrieves it by id
#[test]
fn task_instance_repo_create_and_get_task() {
    let mut repo = MemoryStore::new();

    let task_kind = repo
        .get_or_create_task_kind("Test Task".to_string())
        .unwrap();

    let input = json("{\"test\":\"data\"}");
    let task = repo
        .create_task(task_kind.id, Some(input.clone()))
        .unwrap();

    assert_eq!(task.task_kind.id, task_kind.id);
    assert_eq!(task.task_kind.name, task_kind.name);
    assert_eq!(task.input_data, Some(input));
    assert_eq!(task.status, TaskStatus::Pending);
    assert_eq!(task.assigned_to, None);

    let retrieved = repo.get_task_by_id(&task.id, false).unwrap();
    assert_eq!(task.id, retrieved.id);
    assert_eq!(task, retrieved);
}

/// Creates a task and then uploads a result and an error
#[test]
fn task_instance_repo_create_task_and_then_upload_error() {
    let mut repo = MemoryStore::new();

    let task_kind = repo
        .get_or_create_task_kind("Test Task".to_string())
        .unwrap();
    let task = repo.create_task(task_kind.id, None).unwrap();
    let worker_id = Id::random();
    repo.register_worker(
        worker_id,
        "Test Worker".to_string(),
        vec![task_kind.clone()],
    )
    .unwrap();

    // Test successful result
    let output = json("{\"result\":\"success\"}");
    let result = repo
        .upload_task_result(&task.id, &worker_id, output.clone())
        .unwrap();

    assert_eq!(result.task_id, task.id);
    assert_eq!(result.worker_id, worker_id);
    assert_eq!(result.output_data, Some(output));
    assert!(result.error_data.is_none());

    // Test error result
    let task2 = repo.create_task(task_kind.id, None).unwrap();
    let error = json("{\"error\":\"failed\"}");
    let error_result = repo
        .upload_task_error(&task2.id, &worker_id, error.clone())
        .unwrap();

    assert_eq!(error_result.task_id, task2.id);
    assert_eq!(error_result.worker_id, worker_id);
    assert_eq!(error_result.error_data, Some(error));
    assert!(error_result.output_data.is_none());

    // Test getting results
    let task = repo.get_task_by_id(&task.id, true).unwrap();
    assert_eq!(task.result.is_some(), true);
    assert_eq!(task.result.unwrap().task_id, result.task_id);
}

/// Tests that a task's status can be updated after creation
#[test]
fn task_instance_repo_test_task_status_update() {
    let mut repo = MemoryStore::new();

    let task_kind = repo
        .get_or_create_task_kind("Test Task".to_string())
        .unwrap();
    let task = repo.create_task(task_kind.id, None).unwrap();
    assert_eq!(task.status, TaskStatus::Pending);

    repo.update_task_status(&task.id, TaskStatus::Running)
        .unwrap();
    let updated = repo.get_task_by_id(&task.id, false).unwrap();
    assert_eq!(updated.status, TaskStatus::Running);
}

/// Creates a task without input data (should be allowed)
#[test]
fn task_instance_repo_create_task_without_input_data() {
    let mut repo = MemoryStore::new();

    let task_kind = repo
        .get_or_create_task_kind("Test Task".to_string())
        .unwrap();
    let task = repo.create_task(task_kind.id, None).unwrap();
    assert_eq!(task.input_data, None);
}

/// Creates a task and then retrieves its results, which should be empty
#[test]
fn task_instance_repo_get_task_results_empty() {
    let mut repo = MemoryStore::new();

    let task_kind = repo
        .get_or_create_task_kind("Test Task".to_string())
        .unwrap();
    let task = repo.create_task(task_kind.id, None).unwrap();
    let task = repo.get_task_by_id(&task.id, true).unwrap();
    assert!(task.result.is_none());
}

/// Attempts to retrieve a non-existent task (should fail)
#[test]
fn task_instance_repo_get_nonexistent_task() {
    let repo = MemoryStore::new();
    let task = repo.get_task_by_id(&Id::random(), true);
    assert!(task.is_err());
    assert_eq!(task, Err(StoreError::NotFound));
}

/// Creates a task and then updates its status through its transitions
#[test]
fn task_instance_repo_status_transitions() {
    let mut repo = MemoryStore::new();

    let task_kind = repo
        .get_or_create_task_kind("Test Task".to_string())
        .unwrap();
    let task = repo.create_task(task_kind.id, None).unwrap();

    // Test full lifecycle
    assert_eq!(task.status, TaskStatus::Pending);

    repo.update_task_status(&task.id, TaskStatus::Running)
        .unwrap();
    let task = repo.get_task_by_id(&task.id, false).unwrap();
    assert_eq!(task.status, TaskStatus::Running);

    repo.update_task_status(&task.id, TaskStatus::Completed)
        .unwrap();
    let task = repo.get_task_by_id(&task.id, false).unwrap();
    assert_eq!(task.status, TaskStatus::Completed);
}

/// Tests assigning a task to a worker
#[test]
fn test_assign_task_to_worker() {
    let mut repo = MemoryStore::new();

    let task_kind = repo
        .get_or_create_task_kind("Test Task".to_string())
        .unwrap();
    let task = repo.create_task(task_kind.id, None).unwrap();
    let worker_id = Id::random();
    repo.register_worker(
        worker_id,
        "Test Worker".to_string(),
        vec![task_kind.clone()],
    )
    .unwrap();

    repo.assign_task_to_worker(&task.id, &worker_id).unwrap();
    let updated = repo.get_task_by_id(&task.id, false).unwrap();
    assert_eq!(updated.assigned_to, Some(worker_id));
    assert_eq!(updated.status, TaskStatus::Queued);
}

/// Registers a worker and then retrieves it by id
#[test]
fn worker_repo_register_and_get_worker() {
    let mut repo = MemoryStore::new();

    let task_kind = repo
        .get_or_create_task_kind("Test task".to_string())
        .unwrap();

    let worker_id = Id::random();
    let worker = repo
        .register_worker(
            worker_id,
            "Test Worker".to_string(),
            vec![task_kind.clone()],
        )
        .unwrap();

    assert_eq!(worker.id, worker_id);
    assert_eq!(worker.name, "Test Worker");
    assert_eq!(worker.task_kind.len(), 1);
    assert_eq!(worker.task_kind[0].id, task_kind.id);
    assert!(worker.active);

    let retrieved = repo.get_worker_by_id(&worker_id).unwrap();
    assert_eq!(worker.id, retrieved.id);
    assert_eq!(worker.name, retrieved.name);
    assert_eq!(worker.task_kind, retrieved.task_kind);
}

/// Registers two workers and then retrieves all workers
#[test]
fn worker_repo_get_all_workers() {
    let mut repo = MemoryStore::new();

    let task_kind = repo
        .get_or_create_task_kind("Test task".to_string())
        .unwrap();

    let worker1 = repo
        .register_worker(
            Id::random(),
            "Worker 1".to_string(),
            vec![task_kind.clone()],
        )
        .unwrap();

    let worker2 = repo
        .register_worker(
            Id::random(),
            "Worker 2".to_string(),
            vec![task_kind.clone()],
        )
        .unwrap();

    let all_workers = repo.get_all_workers().unwrap();
    assert_eq!(all_workers.len(), 2);
    assert!(all_workers.iter().any(|w| w.id == worker1.id));
    assert!(all_workers.iter().any(|w| w.id == worker2.id));
    assert_eq!(all_workers, vec![worker1, worker2]);
}

/// Tests worker update functionality including name changes and task kind modifications
#[test]
fn worker_repo_update_worker() {
    let mut repo = MemoryStore::new();

    // Create two distinct task kinds
    let coding_task = repo.get_or_create_task_kind("Coding".to_string()).unwrap();
    let testing_task = repo
        .get_or_create_task_kind("Testing".to_string())
        .unwrap();

    let worker_id = Id::random();

    // Initial worker registration
    let initial_worker = repo
        .register_worker(
            worker_id,
            "Developer Bot".to_string(),
            vec![coding_task.clone()],
        )
        .unwrap();

    assert_eq!(initial_worker.name, "Developer Bot");
    assert_eq!(initial_worker.task_kind.len(), 1);
    assert_eq!(initial_worker.task_kind[0].id, coding_task.id);

    // Update both name and task kinds
    let updated_worker = repo
        .register_worker(
            worker_id,
            "Test Bot".to_string(),
            vec![testing_task.clone()],
        )
        .unwrap();

    // Verify the updates
    assert_eq!(updated_worker.id, worker_id);
    assert_eq!(updated_worker.name, "Test Bot");
    assert_eq!(updated_worker.task_kind.len(), 1);
    assert_eq!(updated_worker.task_kind[0].id, testing_task.id);

    // Verify by fetching directly
    let fetched_worker = repo.get_worker_by_id(&worker_id).unwrap();
    assert_eq!(fetched_worker.name, "Test Bot");
    assert_eq!(fetched_worker.task_kind.len(), 1);
    assert_eq!(fetched_worker.task_kind[0].id, testing_task.id);
}

/// Registers a worker and then updates its name and task kinds
#[test]
fn worker_repo_update_worker_name_and_kinds() {
    let mut repo = MemoryStore::new();

    let task_kind1 = repo.get_or_create_task_kind("Task 1".to_string()).unwrap();
    let task_kind2 = repo.get_or_create_task_kind("Task 2".to_string()).unwrap();

    let worker_id = Id::random();
    let worker = repo
        .register_worker(worker_id, "Original Name".to_string(), vec![task_kind1])
        .unwrap();

    // Update name and task kinds
    let updated = repo
        .register_worker(
            worker_id,
            "Updated Name".to_string(),
            vec![task_kind2.clone()],
        )
        .unwrap();

    assert_eq!(updated.id, worker_id);
    assert_eq!(updated.name, "Updated Name");
    assert_eq!(updated.task_kind.len(), 1);
    assert_eq!(updated.task_kind[0].id, task_kind2.id);
    assert_eq!(updated.registered_at, worker.registered_at);
    assert_eq!(repo.workers.len(), 1);
}

/// Registers a worker and then updates its active status
#[test]
fn worker_repo_worker_active_status() {
    let mut repo = MemoryStore::new();

    let task_kind = repo
        .get_or_create_task_kind("Test task".to_string())
        .unwrap();

    let worker = repo
        .register_worker(Id::random(), "Test Worker".to_string(), vec![task_kind])
        .unwrap();
    assert!(worker.active);

    repo.set_worker_active(&worker.id, false).unwrap();
    let updated = repo.get_worker_by_id(&worker.id).unwrap();
    assert!(!updated.active);
}

/// Registers a worker and then records a heartbeat
#[test]
fn worker_repo_worker_heartbeat() {
    let mut repo = MemoryStore::new();

    let task_kind = repo
        .get_or_create_task_kind("Test task".to_string())
        .unwrap();

    let worker = repo
        .register_worker(Id::random(), "Test Worker".to_string(), vec![task_kind])
        .unwrap();

    repo.record_heartbeat(&worker.id).unwrap();
    let heartbeat = repo.get_latest_heartbeat(&worker.id).unwrap();

    // Heartbeat should be recent
    let now = Timestamp::now();
    let elapsed = now.unix_nanos - heartbeat.unix_nanos;
    assert!(elapsed >= 0);
    assert!(elapsed / 1_000_000_000 < 1);
}

/// Attempts to retrieve a nonexistent worker by id (should fail)
#[test]
fn worker_repo_get_nonexistent_worker() {
    let repo = MemoryStore::new();
    let result = repo.get_worker_by_id(&Id::random());
    assert!(result.is_err());
    assert_eq!(result, Err(StoreError::NotFound));
}

/// Attempts to retrieve a nonexistent heartbeat (should fail)
#[test]
fn worker_repo_get_nonexistent_heartbeat() {
    let repo = MemoryStore::new();
    let result = repo.get_latest_heartbeat(&Id::random());
    assert!(result.is_err());
}

#[test]
fn set_active_of_an_unknown_worker_is_not_found() {
    let mut repo = MemoryStore::new();
    assert_eq!(
        repo.set_worker_active(&Id::random(), false),
        Err(StoreError::NotFound)
    );
}

#[test]
fn latest_heartbeat_is_the_last_recorded_for_the_worker() {
    let mut repo = MemoryStore::new();
    let a = Id::random();
    let b = Id::random();
    repo.record_heartbeat(&a).unwrap();
    repo.record_heartbeat(&b).unwrap();
    repo.record_heartbeat(&a).unwrap();
    repo.record_heartbeat(&b).unwrap();
    assert_eq!(repo.heartbeats.len(), 4);
    assert_eq!(
        repo.get_latest_heartbeat(&a),
        Ok(repo.heartbeats[2].heartbeat_time)
    );
    assert_eq!(
        repo.get_latest_heartbeat(&b),
        Ok(repo.heartbeats[3].heartbeat_time)
    );
}

#[test]
fn task_of_an_unknown_kind_is_refused() {
    let mut repo = MemoryStore::new();
    assert_eq!(repo.create_task(Id::random(), None), Err(StoreError::Failed));
    assert!(repo.tasks.is_empty());
}

#[test]
fn result_for_an_unknown_task_is_refused() {
    let mut repo = MemoryStore::new();
    let worker = Id::random();
    assert_eq!(
        repo.upload_task_result(&Id::random(), &worker, json("1")),
        Err(StoreError::Failed)
    );
    assert_eq!(
        repo.upload_task_error(&Id::random(), &worker, json("1")),
        Err(StoreError::Failed)
    );
    assert!(repo.results.is_empty());
}

#[test]
fn changes_to_an_unknown_task_are_no_error() {
    let mut repo = MemoryStore::new();
    let kind = repo.get_or_create_task_kind("k".to_string()).unwrap();
    let task = repo.create_task(kind.id, None).unwrap();
    assert_eq!(
        repo.update_task_status(&Id::random(), TaskStatus::Running),
        Ok(())
    );
    assert_eq!(
        repo.assign_task_to_worker(&Id::random(), &Id::random()),
        Ok(())
    );
    assert_eq!(repo.get_task_by_id(&task.id, true), Ok(task));
}

#[test]
fn upload_result_then_get_yields_the_output_and_completed() {
    let mut repo = MemoryStore::new();
    let kind = repo.get_or_create_task_kind("k".to_string()).unwrap();
    let task = repo.create_task(kind.id, Some(json("[1]"))).unwrap();
    let worker = Id::random();
    let output = json("{\"answer\":42}");
    let uploaded = repo
        .upload_task_result(&task.id, &worker, output.clone())
        .unwrap();
    let read = repo.get_task_by_id(&task.id, true).unwrap();
    assert_eq!(read.status, TaskStatus::Completed);
    let result = read.result.unwrap();
    assert_eq!(result, uploaded);
    assert_eq!(result.output_data, Some(output));
    assert_eq!(result.error_data, None);
    assert_eq!(result.worker_id, worker);
    assert_eq!(result.task_id, task.id);
    assert_eq!(read.input_data, Some(json("[1]")));
    assert_eq!(repo.get_task_by_id(&task.id, false).unwrap().result, None);
}

#[test]
fn upload_error_then_get_yields_the_error_and_failed() {
    let mut repo = MemoryStore::new();
    let kind = repo.get_or_create_task_kind("k".to_string()).unwrap();
    let task = repo.create_task(kind.id, None).unwrap();
    let worker = Id::random();
    let error = json("\"boom\"");
    repo.upload_task_error(&task.id, &worker, error.clone())
        .unwrap();
    let read = repo.get_task_by_id(&task.id, true).unwrap();
    assert_eq!(read.status, TaskStatus::Failed);
    let result = read.result.unwrap();
    assert_eq!(result.error_data, Some(error));
    assert_eq!(result.output_data, None);
}

#[test]
fn result_then_error_on_the_same_task() {
    let mut repo = MemoryStore::new();
    let kind = repo.get_or_create_task_kind("k".to_string()).unwrap();
    let task = repo.create_task(kind.id, None).unwrap();
    let other = repo.create_task(kind.id, None).unwrap();
    let worker = Id::random();
    let o1 = json("{\"o\":1}");
    let e1 = json("{\"e\":1}");
    let first = repo
        .upload_task_result(&task.id, &worker, o1.clone())
        .unwrap();
    repo.upload_task_result(&other.id, &worker, json("0"))
        .unwrap();
    repo.upload_task_error(&task.id, &worker, e1.clone())
        .unwrap();
    repo.upload_task_error(&other.id, &worker, json("0"))
        .unwrap();
    let read = repo.get_task_by_id(&task.id, true).unwrap();
    assert_eq!(read.status, TaskStatus::Failed);
    let result = read.result.unwrap();
    assert_eq!(result.error_data, Some(e1));
    assert_eq!(result.output_data, None);
    assert_eq!(repo.results.len(), 4);
    assert_eq!(repo.results[0], first);
    assert_eq!(repo.results[0].output_data, Some(o1));
}

#[test]
fn registration_creates_the_kinds_that_are_missing() {
    let mut repo = MemoryStore::new();
    let known = repo.get_or_create_task_kind("known".to_string()).unwrap();
    let fresh = TaskKind::new("fresh".to_string());
    let worker = repo
        .register_worker(
            Id::random(),
            "w".to_string(),
            vec![known.clone(), fresh.clone()],
        )
        .unwrap();
    assert_eq!(worker.task_kind, vec![known.clone(), fresh.clone()]);
    assert_eq!(repo.get_all_task_kinds(), Ok(vec![known, fresh.clone()]));
    assert_eq!(
        repo.get_or_create_task_kind("fresh".to_string()),
        Ok(fresh)
    );
}

#[test]
fn registration_with_a_taken_name_is_refused_and_changes_nothing() {
    let mut repo = MemoryStore::new();
    let known = repo.get_or_create_task_kind("known".to_string()).unwrap();
    let clash = TaskKind::new("known".to_string());
    let id = Id::random();
    assert_eq!(
        repo.register_worker(id, "w".to_string(), vec![clash]),
        Err(StoreError::Failed)
    );
    assert_eq!(repo.get_all_task_kinds(), Ok(vec![known.clone()]));
    assert_eq!(repo.get_worker_by_id(&id), Err(StoreError::NotFound));
    assert_eq!(
        repo.register_worker(id, "w".to_string(), vec![known.clone(), known]),
        Err(StoreError::Failed)
    );
    assert!(repo.workers.is_empty());
}

#[test]
fn registration_keeps_the_name_of_a_known_kind() {
    let mut repo = MemoryStore::new();
    let known = repo.get_or_create_task_kind("known".to_string()).unwrap();
    let renamed = TaskKind {
        id: known.id,
        name: "other".to_string(),
    };
    let id = Id::random();
    let worker = repo
        .register_worker(id, "w".to_string(), vec![renamed.clone()])
        .unwrap();
    assert_eq!(worker.task_kind, vec![renamed]);
    assert_eq!(
        repo.get_worker_by_id(&id).unwrap().task_kind,
        vec![known.clone()]
    );
    assert_eq!(repo.get_all_task_kinds(), Ok(vec![known]));
}

#[test]
fn reregistration_keeps_the_instant_and_marks_the_worker_active() {
    let mut repo = MemoryStore::new();
    let kind = repo.get_or_create_task_kind("k".to_string()).unwrap();
    let id = Id::random();
    let first = repo
        .register_worker(id, "a".to_string(), vec![kind.clone()])
        .unwrap();
    repo.set_worker_active(&id, false).unwrap();
    assert!(!repo.get_worker_by_id(&id).unwrap().active);
    let second = repo.register_worker(id, "b".to_string(), vec![]).unwrap();
    assert_eq!(second.registered_at, first.registered_at);
    assert!(second.active);
    assert_eq!(second.name, "b");
    assert!(second.task_kind.is_empty());
    assert_eq!(repo.get_worker_by_id(&id), Ok(second));
}

#[test]
fn kind_is_created_with_the_fresh_identifier_unless_it_is_taken() {
    let mut repo = MemoryStore::new();
    let first = repo.resolve_kind("a".to_string(), Id::new(1)).unwrap();
    assert_eq!(
        first,
        TaskKind {
            id: Id::new(1),
            name: "a".to_string()
        }
    );
    assert_eq!(repo.resolve_kind("a".to_string(), Id::new(2)), Ok(first.clone()));
    assert_eq!(
        repo.resolve_kind("b".to_string(), Id::new(1)),
        Err(StoreError::Failed)
    );
    assert_eq!(repo.kinds, vec![first]);
}

#[test]
fn task_is_inserted_with_the_fresh_identifier_unless_it_is_taken() {
    let mut repo = MemoryStore::new();
    let kind = repo.resolve_kind("k".to_string(), Id::new(1)).unwrap();
    let now = Timestamp { unix_nanos: 42 };
    let task = repo
        .insert_task(kind.id, Some(json("{}")), Id::new(10), now)
        .unwrap();
    assert_eq!(task.id, Id::new(10));
    assert_eq!(task.created_at, now);
    assert_eq!(task.task_kind, kind);
    assert_eq!(task.status, TaskStatus::Pending);
    assert_eq!(task.assigned_to, None);
    assert_eq!(task.result, None);
    assert_eq!(task.input_data, Some(json("{}")));
    assert_eq!(
        repo.insert_task(kind.id, None, Id::new(10), now),
        Err(StoreError::Failed)
    );
    assert_eq!(
        repo.insert_task(Id::new(2), None, Id::new(11), now),
        Err(StoreError::Failed)
    );
    assert_eq!(repo.tasks.len(), 1);
    assert_eq!(repo.get_task_by_id(&Id::new(10), true), Ok(task));
}

#[test]
fn result_is_inserted_at_the_given_instant() {
    let mut repo = MemoryStore::new();
    let kind = repo.resolve_kind("k".to_string(), Id::new(1)).unwrap();
    let task = repo
        .insert_task(kind.id, None, Id::new(10), Timestamp { unix_nanos: 1 })
        .unwrap();
    let at = Timestamp { unix_nanos: 2 };
    let result = repo
        .insert_result(task.id, Id::new(5), None, Some(json("\"e\"")), at)
        .unwrap();
    assert_eq!(result.created_at, at);
    assert_eq!(result.worker_id, Id::new(5));
    assert_eq!(result.error_data, Some(json("\"e\"")));
    assert_eq!(result.output_data, None);
    let read = repo.get_task_by_id(&task.id, true).unwrap();
    assert_eq!(read.status, TaskStatus::Failed);
    assert_eq!(read.result, Some(result));
    assert_eq!(
        repo.insert_result(Id::new(11), Id::new(5), Some(json("1")), None, at),
        Err(StoreError::Failed)
    );
}

#[test]
fn worker_is_registered_at_the_given_instant_once() {
    let mut repo = MemoryStore::new();
    let kind = repo.resolve_kind("k".to_string(), Id::new(1)).unwrap();
    let first = repo
        .register_worker_at(
            Id::new(7),
            "a".to_string(),
            vec![kind.clone()],
            Timestamp { unix_nanos: 100 },
        )
        .unwrap();
    assert_eq!(first.registered_at, Timestamp { unix_nanos: 100 });
    assert!(first.active);
    let second = repo
        .register_worker_at(
            Id::new(7),
            "b".to_string(),
            vec![kind],
            Timestamp { unix_nanos: 200 },
        )
        .unwrap();
    assert_eq!(second.registered_at, Timestamp { unix_nanos: 100 });
    assert_eq!(second.name, "b");
}

#[test]
fn heartbeat_is_recorded_at_the_given_instant() {
    let mut repo = MemoryStore::new();
    repo.record_heartbeat_at(Id::new(7), Timestamp { unix_nanos: 5 });
    repo.record_heartbeat_at(Id::new(8), Timestamp { unix_nanos: 6 });
    assert_eq!(
        repo.get_latest_heartbeat(&Id::new(7)),
        Ok(Timestamp { unix_nanos: 5 })
    );
    repo.record_heartbeat_at(Id::new(7), Timestamp { unix_nanos: 3 });
    assert_eq!(
        repo.get_latest_heartbeat(&Id::new(7)),
        Ok(Timestamp { unix_nanos: 5 })
    );
    repo.record_heartbeat_at(Id::new(7), Timestamp { unix_nanos: 9 });
    assert_eq!(
        repo.get_latest_heartbeat(&Id::new(7)),
        Ok(Timestamp { unix_nanos: 9 })
    );
    assert_eq!(
        repo.get_latest_heartbeat(&Id::new(8)),
        Ok(Timestamp { unix_nanos: 6 })
    );
}

#[test]
fn task_is_read_with_its_most_recent_result() {
    let mut repo = MemoryStore::new();
    let kind = repo.resolve_kind("k".to_string(), Id::new(1)).unwrap();
    let task = repo
        .insert_task(kind.id, None, Id::new(10), Timestamp { unix_nanos: 0 })
        .unwrap();
    let worker = Id::new(5);
    let at = |unix_nanos: i128| Timestamp { unix_nanos };
    let first = repo
        .insert_result(task.id, worker, Some(json("1")), None, at(20))
        .unwrap();
    assert_eq!(
        repo.get_task_by_id(&task.id, true).unwrap().result,
        Some(first.clone())
    );
    // An instant that lies before the first: the status follows the upload,
    // the result that is read stays the most recent one.
    repo.insert_result(task.id, worker, None, Some(json("2")), at(10))
        .unwrap();
    let read = repo.get_task_by_id(&task.id, true).unwrap();
    assert_eq!(read.status, TaskStatus::Failed);
    assert_eq!(read.result, Some(first));
    // The same instant: the one that was inserted last.
    let tie = repo
        .insert_result(task.id, worker, Some(json("3")), None, at(20))
        .unwrap();
    assert_eq!(
        repo.get_task_by_id(&task.id, true).unwrap().result,
        Some(tie)
    );
    let last = repo
        .insert_result(task.id, worker, None, Some(json("4")), at(30))
        .unwrap();
    assert_eq!(
        repo.get_task_by_id(&task.id, true).unwrap().result,
        Some(last)
    );
    assert_eq!(repo.results.len(), 4);
}
