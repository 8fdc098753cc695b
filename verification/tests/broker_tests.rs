use fasttq::broker::{create_broker_connection, Broker, BrokerError, BrokerKind, SUBMISSION_EXCHANGE};
use fasttq::driver::{settle_delete, BrokerCore, DriverError, MockBrokerCore};
use fasttq::ident::Id;
use fasttq::models::{Json, TaskInstance, TaskKind, Worker};
use fasttq::status::TaskStatus;
use fasttq::testing::{get_mock_broker, setup_task_kinds, setup_tasks, setup_workers};
use fasttq::time_format::Timestamp;
use std::cell::{Cell, RefCell};

#[derive(Debug, Clone, PartialEq, Eq)]
struct Message {
    exchange: String,
    routing_key: String,
    payload: Vec<u8>,
    message_id: String,
    task_id: String,
}

/// A driver that keeps what it is handed, and fails where it is told to.
#[derive(Default)]
struct RecordingBroker {
    exchanges: RefCell<Vec<String>>,
    queues: RefCell<Vec<(String, String, String)>>,
    messages: RefCell<Vec<Message>>,
    fail_declare: Cell<bool>,
    fail_publish: Cell<bool>,
    fail_delete: Cell<bool>,
}

impl RecordingBroker {
    fn has_queue(&self, name: &str) -> bool {
        self.queues.borrow().iter().any(|(_, queue, _)| queue == name)
    }

    fn messages(&self) -> Vec<Message> {
        self.messages.borrow().clone()
    }
}

impl BrokerCore for RecordingBroker {
    fn register_exchange(&self, exchange: &str) -> Result<(), DriverError> {
        if self.fail_declare.get() {
            return Err(DriverError::DeclareFailed);
        }
        let mut exchanges = self.exchanges.borrow_mut();
        if !exchanges.iter().any(|known| known == exchange) {
            exchanges.push(exchange.to_string());
        }
        Ok(())
    }

    fn register_queue(
        &self,
        exchange: &str,
        queue: &str,
        routing_key: &str,
    ) -> Result<(), DriverError> {
        if self.fail_declare.get() {
            return Err(DriverError::DeclareFailed);
        }
        if !self.has_queue(queue) {
            self.queues.borrow_mut().push((
                exchange.to_string(),
                queue.to_string(),
                routing_key.to_string(),
            ));
        }
        Ok(())
    }

    fn delete_queue(&self, queue: &str) -> Result<(), DriverError> {
        if self.fail_delete.get() {
            return Err(DriverError::ConnectFailed);
        }
        let found = if self.has_queue(queue) {
            Ok(())
        } else {
            Err(DriverError::NotFound)
        };
        self.queues.borrow_mut().retain(|(_, known, _)| known != queue);
        settle_delete(found)
    }

    fn delete_exchange(&self, exchange: &str) -> Result<(), DriverError> {
        self.exchanges.borrow_mut().retain(|known| known != exchange);
        Ok(())
    }

    fn publish_message(
        &self,
        exchange: &str,
        routing_key: &str,
        payload: &[u8],
        message_id: &str,
        task_id: &str,
    ) -> Result<(), DriverError> {
        if self.fail_publish.get() {
            return Err(DriverError::PublishFailed);
        }
        self.messages.borrow_mut().push(Message {
            exchange: exchange.to_string(),
            routing_key: routing_key.to_string(),
            payload: payload.to_vec(),
            message_id: message_id.to_string(),
            task_id: task_id.to_string(),
        });
        Ok(())
    }
}

fn recording_broker() -> Broker<RecordingBroker> {
    Broker::new("amqp://localhost", RecordingBroker::default()).unwrap()
}

fn kind(name: &str) -> TaskKind {
    TaskKind::new(name.to_string())
}

fn worker(name: &str, kinds: &[&TaskKind]) -> Worker {
    Worker::new(
        name.to_string(),
        kinds.iter().map(|kind| (*kind).clone()).collect(),
    )
}

fn task(kind: &TaskKind, input: Option<&str>) -> TaskInstance {
    TaskInstance {
        id: Id::random(),
        task_kind: kind.clone(),
        input_data: input.map(|text| Json::new(text.to_string()).unwrap()),
        status: TaskStatus::Pending,
        created_at: Timestamp::now(),
        assigned_to: None,
        result: None,
    }
}

#[test]
fn test_worker_can_handle() {
    let task_kind1 = TaskKind::new("task1".to_string());
    let task_kind2 = TaskKind::new("task2".to_string());
    let worker = Worker::new("worker1".to_string(), vec![task_kind1.clone()]);

    let task1 = TaskInstance {
        id: Id::random(),
        task_kind: task_kind1.clone(),
        status: TaskStatus::Queued,
        created_at: Timestamp::now(),
        input_data: None,
        assigned_to: None,
        result: None,
    };
    let task2 = TaskInstance {
        id: Id::random(),
        task_kind: task_kind2.clone(),
        status: TaskStatus::Queued,
        created_at: Timestamp::now(),
        input_data: None,
        assigned_to: None,
        result: None,
    };

    assert!(worker.can_handle(&task1));
    assert!(!worker.can_handle(&task2));
}

#[test]
fn worker_handles_by_name_whatever_the_identifier() {
    let registered = kind("resize");
    let same_name = kind("resize");
    assert_ne!(registered.id, same_name.id);
    let worker = worker("w", &[&registered]);
    assert!(worker.can_handle(&task(&same_name, None)));
    assert!(!Worker::new("idle".to_string(), vec![]).can_handle(&task(&same_name, None)));
}

#[test]
fn test_create_broker_connection() {
    assert_eq!(create_broker_connection("amqp://localhost"), Ok(BrokerKind::Amqp));
}

#[test]
fn broker_kind_goes_by_the_scheme() {
    assert_eq!(create_broker_connection("amqp"), Ok(BrokerKind::Amqp));
    assert_eq!(create_broker_connection("amqp:"), Ok(BrokerKind::Amqp));
    assert_eq!(create_broker_connection("amqps://host"), Err(BrokerError::InvalidUri));
    assert_eq!(create_broker_connection("redis://host"), Err(BrokerError::InvalidUri));
    assert_eq!(create_broker_connection("mock"), Err(BrokerError::InvalidUri));
    assert_eq!(create_broker_connection(""), Err(BrokerError::InvalidUri));
    assert_eq!(create_broker_connection(":amqp"), Err(BrokerError::InvalidUri));
    assert_eq!(create_broker_connection("AMQP://host"), Err(BrokerError::InvalidUri));
}

#[test]
fn test_broker_new() {
    let uri = "amqp://localhost".to_string();
    let broker = Broker::new(&uri, MockBrokerCore::new());
    assert!(broker.is_ok());
    let broker = broker.unwrap();
    assert_eq!(broker.uri, uri);
    assert_eq!(broker.workers.len(), 0);
    assert_eq!(broker.workers_index, 0);
}

#[test]
fn broker_new_declares_the_submission_exchange() {
    let broker = recording_broker();
    assert_eq!(SUBMISSION_EXCHANGE, "task_submission");
    assert_eq!(
        *broker.broker.exchanges.borrow(),
        vec!["task_submission".to_string()]
    );
}

#[test]
fn broker_new_rejects_other_schemes_before_the_driver() {
    let made = Broker::new("mock", RecordingBroker::default());
    assert_eq!(made.err(), Some(BrokerError::InvalidUri));
}

#[test]
fn broker_new_reports_the_driver_error() {
    let driver = RecordingBroker::default();
    driver.fail_declare.set(true);
    let made = Broker::new("amqp://localhost", driver);
    assert_eq!(
        made.err(),
        Some(BrokerError::Driver(DriverError::DeclareFailed))
    );
}

#[test]
fn test_broker_register_worker() {
    let uri = "amqp://localhost".to_string();
    let mut broker = Broker::new(&uri, MockBrokerCore::new()).unwrap();
    let workers = setup_workers(setup_task_kinds());

    for worker in workers {
        broker.register_worker(worker).unwrap();
    }

    assert_eq!(broker.workers.len(), 3);
}

#[test]
fn test_broker_remove_worker() {
    let uri = "amqp://localhost".to_string();
    let mut broker = Broker::new(&uri, MockBrokerCore::new()).unwrap();
    let workers = setup_workers(setup_task_kinds());

    for worker in workers.clone() {
        broker.register_worker(worker).unwrap();
    }

    broker.remove_worker(&workers[0].id).unwrap();
    assert_eq!(broker.workers.len(), 2);
}

#[test]
fn test_broker_publish() {
    let task_kinds = setup_task_kinds();
    let workers = setup_workers(task_kinds.clone());
    let tasks = setup_tasks(task_kinds.clone());

    let mut broker = get_mock_broker();

    for worker in workers.clone() {
        broker.register_worker(worker).unwrap();
    }

    for task in tasks {
        broker.publish(&task).unwrap();
    }
}

#[test]
fn test_no_available_worker() {
    let mut broker = get_mock_broker();

    let workers = setup_workers(setup_task_kinds());

    for worker in workers.clone() {
        broker.register_worker(worker).unwrap();
    }

    let task = TaskInstance {
        id: Id::random(),
        task_kind: TaskKind::new("task3".to_string()),
        input_data: Some(Json::new("{\"key\":\"value\"}".to_string()).unwrap()),
        status: TaskStatus::Pending,
        created_at: Timestamp::now(),
        assigned_to: None,
        result: None,
    };

    let result = broker.publish(&task);
    assert!(result.is_err());
    assert_eq!(result, Err(BrokerError::NoAvailableWorker));
}

#[test]
fn mock_broker_fixture() {
    let broker = get_mock_broker();
    assert_eq!(broker.uri, "mock");
    assert!(broker.workers.is_empty());
    assert_eq!(broker.workers_index, 0);
}

#[test]
fn fixtures_hold_what_they_say() {
    let kinds = setup_task_kinds();
    assert_eq!(kinds.len(), 2);
    assert_eq!(kinds[0].name, "task1");
    assert_eq!(kinds[1].name, "task2");
    let workers = setup_workers(kinds.clone());
    assert_eq!(workers.len(), 3);
    assert_eq!(workers[0].name, "worker1");
    assert_eq!(workers[0].task_kind, vec![kinds[0].clone()]);
    assert_eq!(workers[1].name, "worker2");
    assert_eq!(workers[1].task_kind, vec![kinds[1].clone()]);
    assert_eq!(workers[2].name, "worker3");
    assert_eq!(workers[2].task_kind, kinds);
    assert!(workers.iter().all(|worker| worker.active));
    let tasks = setup_tasks(kinds.clone());
    assert_eq!(tasks.len(), 3);
    assert_eq!(tasks[0].task_kind, kinds[0]);
    assert_eq!(tasks[1].task_kind, kinds[1]);
    assert_eq!(tasks[2].task_kind, kinds[1]);
    for task in &tasks {
        assert_eq!(task.status, TaskStatus::Pending);
        assert_eq!(task.assigned_to, None);
        assert_eq!(task.result, None);
        assert_eq!(
            task.input_data,
            Some(Json::new("{\"key\":\"value\"}".to_string()).unwrap())
        );
    }
}

#[test]
fn round_robin_over_three_eligible_workers() {
    let k = kind("k");
    let workers = [
        worker("w0", &[&k]),
        worker("w1", &[&k]),
        worker("w2", &[&k]),
    ];
    let mut broker = recording_broker();
    for worker in &workers {
        broker.register_worker(worker.clone()).unwrap();
    }
    let mut chosen = Vec::new();
    for _ in 0..7 {
        chosen.push(broker.publish(&task(&k, None)).unwrap());
    }
    let expected: Vec<Id> = [0, 1, 2, 0, 1, 2, 0]
        .iter()
        .map(|position: &usize| workers[*position].id)
        .collect();
    assert_eq!(chosen, expected);
    assert_eq!(broker.workers_index, 1);
    assert_eq!(broker.broker.messages().len(), 7);
}

#[test]
fn cursor_advances_past_every_probed_worker() {
    let a = kind("a");
    let b = kind("b");
    let workers = [
        worker("only_a", &[&a]),
        worker("only_b", &[&b]),
        worker("both", &[&a, &b]),
    ];
    let mut broker = recording_broker();
    for worker in &workers {
        broker.register_worker(worker.clone()).unwrap();
    }
    assert_eq!(broker.publish(&task(&b, None)), Ok(workers[1].id));
    assert_eq!(broker.workers_index, 2);
    assert_eq!(broker.publish(&task(&b, None)), Ok(workers[2].id));
    assert_eq!(broker.workers_index, 0);
    assert_eq!(broker.publish(&task(&b, None)), Ok(workers[1].id));
    assert_eq!(broker.workers_index, 2);
    assert_eq!(broker.publish(&task(&a, None)), Ok(workers[2].id));
    assert_eq!(broker.workers_index, 0);
    assert_eq!(broker.publish(&task(&a, None)), Ok(workers[0].id));
    assert_eq!(broker.workers_index, 1);
}

#[test]
fn no_worker_registered_fails_at_once() {
    let mut broker = recording_broker();
    let k = kind("k");
    assert_eq!(
        broker.publish(&task(&k, None)),
        Err(BrokerError::NoAvailableWorker)
    );
    assert_eq!(broker.workers_index, 0);
    assert!(broker.broker.messages().is_empty());
}

#[test]
fn no_eligible_worker_wraps_the_cursor_and_publishes_nothing() {
    let x = kind("x");
    let y = kind("y");
    let mut broker = recording_broker();
    broker.register_worker(worker("a", &[&x])).unwrap();
    broker.register_worker(worker("b", &[&x])).unwrap();
    broker.workers_index = 1;
    assert_eq!(
        broker.publish(&task(&y, None)),
        Err(BrokerError::NoAvailableWorker)
    );
    assert_eq!(broker.workers_index, 1);
    assert_eq!(broker.workers.len(), 2);
    assert!(broker.broker.messages().is_empty());
}

#[test]
fn cursor_beyond_the_registry_wraps() {
    let k = kind("k");
    let workers = [worker("w0", &[&k]), worker("w1", &[&k]), worker("w2", &[&k])];
    let mut broker = recording_broker();
    for worker in &workers {
        broker.register_worker(worker.clone()).unwrap();
    }
    broker.publish(&task(&k, None)).unwrap();
    broker.publish(&task(&k, None)).unwrap();
    assert_eq!(broker.workers_index, 2);
    broker.remove_worker(&workers[0].id).unwrap();
    assert_eq!(broker.workers_index, 2);
    assert_eq!(broker.publish(&task(&k, None)), Ok(workers[1].id));
    assert_eq!(broker.workers_index, 1);
    broker.workers_index = usize::MAX;
    let position = usize::MAX % 2;
    assert_eq!(
        broker.publish(&task(&k, None)),
        Ok([workers[1].id, workers[2].id][position])
    );
    assert_eq!(broker.workers_index, (position + 1) % 2);
}

#[test]
fn published_message_names_the_task_and_the_worker() {
    let k = kind("k");
    let w = worker("w", &[&k]);
    let mut broker = recording_broker();
    broker.register_worker(w.clone()).unwrap();
    let t = task(&k, Some("{ \"key\" : \"value\", \"a\": [1, 2.5, null] }"));
    assert_eq!(broker.publish(&t), Ok(w.id));
    assert_eq!(
        broker.broker.messages(),
        vec![Message {
            exchange: "task_submission".to_string(),
            routing_key: w.id.to_string(),
            payload: b"{\"a\":[1,2.5,null],\"key\":\"value\"}".to_vec(),
            message_id: t.id.to_string(),
            task_id: t.id.to_string(),
        }]
    );
}

#[test]
fn task_without_input_is_published_as_null() {
    let k = kind("k");
    let mut broker = recording_broker();
    broker.register_worker(worker("w", &[&k])).unwrap();
    broker.publish(&task(&k, None)).unwrap();
    broker.publish(&task(&k, Some("null"))).unwrap();
    assert_eq!(broker.broker.messages()[0].payload, b"null".to_vec());
    assert_eq!(broker.broker.messages()[1].payload, b"null".to_vec());
}

#[test]
fn text_that_is_not_json_makes_no_document() {
    assert_eq!(Json::new("{not json".to_string()), None);
    assert_eq!(Json::new("".to_string()), None);
    assert_eq!(Json::new("{\"a\":1} trailing".to_string()), None);
    let document = Json::new(" { \"a\" : [1, 2] } ".to_string()).unwrap();
    assert_eq!(document.as_str(), " { \"a\" : [1, 2] } ");
    assert_eq!(fasttq::models::payload(&Some(document)), b"{\"a\":[1,2]}".to_vec());
    assert_eq!(fasttq::models::payload(&None), b"null".to_vec());
}

#[test]
fn publish_failure_leaves_the_registry() {
    let k = kind("k");
    let w0 = worker("w0", &[&k]);
    let w1 = worker("w1", &[&k]);
    let mut broker = recording_broker();
    broker.register_worker(w0.clone()).unwrap();
    broker.register_worker(w1.clone()).unwrap();
    broker.broker.fail_publish.set(true);
    assert_eq!(
        broker.publish(&task(&k, None)),
        Err(BrokerError::Driver(DriverError::PublishFailed))
    );
    assert_eq!(broker.workers, vec![w0.clone(), w1.clone()]);
    assert_eq!(broker.workers_index, 1);
    broker.broker.fail_publish.set(false);
    assert_eq!(broker.publish(&task(&k, None)), Ok(w1.id));
}

#[test]
fn register_declares_a_queue_named_by_the_worker() {
    let k = kind("k");
    let w = worker("w", &[&k]);
    let mut broker = recording_broker();
    broker.register_worker(w.clone()).unwrap();
    let name = w.id.to_string();
    assert_eq!(
        *broker.broker.queues.borrow(),
        vec![("task_submission".to_string(), name.clone(), name)]
    );
    assert_eq!(broker.workers, vec![w]);
}

#[test]
fn declare_failure_leaves_the_registry() {
    let k = kind("k");
    let mut broker = recording_broker();
    broker.broker.fail_declare.set(true);
    assert_eq!(
        broker.register_worker(worker("w", &[&k])),
        Err(BrokerError::Driver(DriverError::DeclareFailed))
    );
    assert!(broker.workers.is_empty());
    assert!(broker.broker.queues.borrow().is_empty());
}

#[test]
fn registering_twice_appends_twice() {
    let k = kind("k");
    let w = worker("w", &[&k]);
    let mut broker = recording_broker();
    broker.register_worker(w.clone()).unwrap();
    broker.register_worker(w.clone()).unwrap();
    assert_eq!(broker.workers, vec![w.clone(), w.clone()]);
    assert_eq!(broker.broker.queues.borrow().len(), 1);
}

#[test]
fn remove_takes_the_first_entry_and_deletes_the_queue() {
    let k = kind("k");
    let w0 = worker("w0", &[&k]);
    let w1 = worker("w1", &[&k]);
    let mut broker = recording_broker();
    broker.register_worker(w0.clone()).unwrap();
    broker.register_worker(w1.clone()).unwrap();
    broker.register_worker(w0.clone()).unwrap();
    assert_eq!(broker.remove_worker(&w0.id), Ok(()));
    assert_eq!(broker.workers, vec![w1.clone(), w0.clone()]);
    assert!(!broker.broker.has_queue(&w0.id.to_string()));
    assert!(broker.broker.has_queue(&w1.id.to_string()));
}

#[test]
fn remove_of_an_unknown_worker_fails_without_the_driver() {
    let k = kind("k");
    let w = worker("w", &[&k]);
    let mut broker = recording_broker();
    broker.register_worker(w.clone()).unwrap();
    broker.broker.fail_delete.set(true);
    assert_eq!(
        broker.remove_worker(&Id::random()),
        Err(BrokerError::UnknownWorker)
    );
    assert_eq!(broker.workers, vec![w]);
}

#[test]
fn remove_with_a_failing_driver_still_unlists_the_worker() {
    let k = kind("k");
    let w = worker("w", &[&k]);
    let mut broker = recording_broker();
    broker.register_worker(w.clone()).unwrap();
    broker.broker.fail_delete.set(true);
    assert_eq!(
        broker.remove_worker(&w.id),
        Err(BrokerError::Driver(DriverError::ConnectFailed))
    );
    assert!(broker.workers.is_empty());
}

#[test]
fn queue_is_present_after_register_unregister_register() {
    let k = kind("k");
    let w = worker("w", &[&k]);
    let mut broker = recording_broker();
    broker.register_worker(w.clone()).unwrap();
    assert!(broker.broker.has_queue(&w.id.to_string()));
    broker.remove_worker(&w.id).unwrap();
    assert!(!broker.broker.has_queue(&w.id.to_string()));
    broker.register_worker(w.clone()).unwrap();
    assert!(broker.broker.has_queue(&w.id.to_string()));
    assert_eq!(broker.workers, vec![w]);
}

#[test]
fn deleting_what_is_absent_is_no_error() {
    assert_eq!(settle_delete(Err(DriverError::NotFound)), Ok(()));
    assert_eq!(settle_delete(Ok(())), Ok(()));
    assert_eq!(
        settle_delete(Err(DriverError::ConnectFailed)),
        Err(DriverError::ConnectFailed)
    );
    let driver = RecordingBroker::default();
    assert_eq!(driver.delete_queue("nothing"), Ok(()));
}

#[test]
fn mock_driver_accepts_everything() {
    let driver = MockBrokerCore::new();
    assert_eq!(driver.register_exchange("e"), Ok(()));
    assert_eq!(driver.register_queue("e", "q", "q"), Ok(()));
    assert_eq!(driver.publish_message("e", "q", b"null", "m", "t"), Ok(()));
    assert_eq!(driver.delete_queue("q"), Ok(()));
    assert_eq!(driver.delete_exchange("e"), Ok(()));
    let copy = driver.clone();
    assert_eq!(copy.delete_queue("q"), Ok(()));
}

#[test]
fn select_worker_gives_the_position_and_moves_the_cursor() {
    let a = kind("a");
    let b = kind("b");
    let mut broker = recording_broker();
    broker.register_worker(worker("only_a", &[&a])).unwrap();
    broker.register_worker(worker("only_b", &[&b])).unwrap();
    assert_eq!(broker.select_worker(&task(&b, None)), Some(1));
    assert_eq!(broker.workers_index, 0);
    assert_eq!(broker.select_worker(&task(&b, None)), Some(1));
    assert_eq!(broker.select_worker(&task(&a, None)), Some(0));
    assert_eq!(broker.workers_index, 1);
    assert_eq!(broker.select_worker(&task(&kind("c"), None)), None);
    assert_eq!(broker.workers_index, 1);
    assert!(broker.broker.messages().is_empty());
}

#[test]
fn prepare_publish_builds_the_message_without_sending_it() {
    let k = kind("k");
    let w = worker("w", &[&k]);
    let mut broker = recording_broker();
    broker.register_worker(w.clone()).unwrap();
    let t = task(&k, Some("[ 1 , 2 ]"));
    let publication = broker.prepare_publish(&t).ok().unwrap();
    assert_eq!(publication.worker_id, w.id);
    assert_eq!(publication.exchange, "task_submission");
    assert_eq!(publication.routing_key, w.id.to_string());
    assert_eq!(publication.payload, b"[1,2]".to_vec());
    assert_eq!(publication.message_id, t.id.to_string());
    assert_eq!(publication.task_id, t.id.to_string());
    assert!(broker.broker.messages().is_empty());
    assert_eq!(
        broker.prepare_publish(&task(&kind("other"), None)).err(),
        Some(BrokerError::NoAvailableWorker)
    );
}

#[test]
fn publish_outcome_follows_the_driver() {
    let id = Id::new(7);
    assert_eq!(fasttq::broker::settle_publish(id, Ok(())), Ok(id));
    assert_eq!(
        fasttq::broker::settle_publish(id, Err(DriverError::PublishFailed)),
        Err(BrokerError::Driver(DriverError::PublishFailed))
    );
}

#[test]
fn queue_binding_is_named_by_the_worker() {
    let id = Id::new(0x123e4567_e89b_12d3_a456_426614174000);
    let binding = fasttq::broker::queue_binding(&id);
    assert_eq!(binding.exchange, "task_submission");
    assert_eq!(binding.queue, "123e4567-e89b-12d3-a456-426614174000");
    assert_eq!(binding.routing_key, "123e4567-e89b-12d3-a456-426614174000");
}

#[test]
fn registration_follows_the_answer_of_the_driver() {
    let k = kind("k");
    let w = worker("w", &[&k]);
    let mut broker = get_mock_broker();
    assert_eq!(
        broker.conclude_registration(w.clone(), Err(DriverError::DeclareFailed)),
        Err(BrokerError::Driver(DriverError::DeclareFailed))
    );
    assert!(broker.workers.is_empty());
    assert_eq!(broker.conclude_registration(w.clone(), Ok(())), Ok(()));
    assert_eq!(broker.workers, vec![w.clone()]);
    assert!(!broker.unlist_worker(&Id::random()));
    assert!(broker.unlist_worker(&w.id));
    assert!(broker.workers.is_empty());
}

#[test]
fn errors_have_their_words() {
    assert_eq!(BrokerError::InvalidUri.message(), "Invalid broker URI");
    assert_eq!(
        BrokerError::NoAvailableWorker.message(),
        "No available worker"
    );
    assert_eq!(
        BrokerError::UnknownWorker.message(),
        "No such worker is registered"
    );
    assert_eq!(
        BrokerError::Driver(DriverError::ConnectFailed).message(),
        "broker connection failed"
    );
    assert_eq!(
        DriverError::DeclareFailed.message(),
        "broker declaration failed"
    );
    assert_eq!(DriverError::PublishFailed.message(), "broker publish failed");
    assert_eq!(DriverError::NotFound.message(), "not found on the broker");
    assert_eq!(
        fasttq::store::StoreError::NotFound.message(),
        "no rows returned"
    );
    assert_eq!(
        fasttq::store::StoreError::Failed.message(),
        "the store failed"
    );
}
