//! The broker coordinator: the registry of workers, the round-robin choice of
//! a worker for a task, and the queues and messages handed to the driver.

use crate::driver::{BrokerCore, DriverError};
use crate::ident::Id;
use crate::models::{payload, TaskInstance, Worker};
use vstd::prelude::*;
use vstd::string::StrSliceExecFns;

verus! {

/// Why the coordinator could not do what was asked.
#[derive(Clone, Copy, Debug, PartialEq, Eq, Structural)]
pub enum BrokerError {
    /// The address does not name a supported broker.
    InvalidUri,
    /// No registered worker handles the kind of the task.
    NoAvailableWorker,
    /// No worker with that identifier is registered.
    UnknownWorker,
    /// The driver failed.
    Driver(DriverError),
}

impl BrokerError {
    /// The words for the error.
    pub open spec fn text(self) -> Seq<char> {
        match self {
            BrokerError::InvalidUri => "Invalid broker URI"@,
            BrokerError::NoAvailableWorker => "No available worker"@,
            BrokerError::UnknownWorker => "No such worker is registered"@,
            BrokerError::Driver(e) => e.text(),
        }
    }

    /// The words for the error.
    pub fn message(self) -> (r: &'static str)
        ensures
            r@ == self.text(),
    {
        match self {
            BrokerError::InvalidUri => "Invalid broker URI",
            BrokerError::NoAvailableWorker => "No available worker",
            BrokerError::UnknownWorker => "No such worker is registered",
            BrokerError::Driver(e) => e.message(),
        }
    }
}

/// The name of the one exchange on which all tasks are submitted.
pub const SUBMISSION_EXCHANGE: &'static str = "task_submission";

/// The brokers that the coordinator can be connected to.
#[derive(Clone, Copy, Debug, PartialEq, Eq, Structural)]
pub enum BrokerKind {
    /// An AMQP broker with direct exchanges.
    Amqp,
}

/// The position of the first colon of a text at or after `from`, or the
/// length of the text where there is none.
pub open spec fn first_colon(uri: Seq<char>, from: int) -> int
    decreases uri.len() - from,
{
    if from < 0 || from >= uri.len() {
        uri.len() as int
    } else if uri[from] == ':' {
        from
    } else {
        first_colon(uri, from + 1)
    }
}

/// The scheme of an address: what stands before its first colon, or all of it
/// where it has none.
pub open spec fn scheme_of(uri: Seq<char>) -> Seq<char> {
    uri.subrange(0, first_colon(uri, 0))
}

/// Which broker a connection is to be made to for an address: the scheme
/// `amqp` names an AMQP broker, and no other scheme is supported. Connecting
/// is left to the driver.
pub fn create_broker_connection(uri: &str) -> (r: Result<BrokerKind, BrokerError>)
    ensures
        r == if scheme_of(uri@) == "amqp"@ {
            Ok::<BrokerKind, BrokerError>(BrokerKind::Amqp)
        } else {
            Err(BrokerError::InvalidUri)
        },
{
    let n = uri.unicode_len();
    let mut end: usize = 0;
    while end < n && uri.get_char(end) != ':'
        invariant
            end <= n,
            n == uri@.len(),
            first_colon(uri@, 0) == first_colon(uri@, end as int),
        decreases n - end,
    {
        end = end + 1;
    }
    let scheme = uri.substring_char(0, end).to_owned();
    let expected = "amqp".to_owned();
    if scheme == expected {
        Ok(BrokerKind::Amqp)
    } else {
        Err(BrokerError::InvalidUri)
    }
}

/// The views of the registered workers, in order.
pub open spec fn registry_view(workers: Seq<Worker>) -> Seq<crate::models::WorkerView> {
    Seq::new(workers.len(), |i: int| workers[i]@)
}

/// The probe, counted from `from`, at which a worker first accepts a task of
/// the given kind, or the number of workers where none does. Probe `k` looks at
/// the worker at position `(cursor + k) % n`.
pub open spec fn first_accepting_probe(
    registry: Seq<crate::models::WorkerView>,
    kind_name: Seq<char>,
    cursor: int,
    from: int,
) -> int
    decreases registry.len() - from,
{
    let n = registry.len() as int;
    if from < 0 || from >= n {
        n
    } else if registry[(cursor + from) % n].handles(kind_name) {
        from
    } else {
        first_accepting_probe(registry, kind_name, cursor, from + 1)
    }
}

/// The position of the worker that is chosen for a task of the given kind when
/// the cursor stands at `cursor`, if any worker accepts it.
pub open spec fn selected_position(
    registry: Seq<crate::models::WorkerView>,
    kind_name: Seq<char>,
    cursor: int,
) -> Option<int> {
    let n = registry.len() as int;
    let k = first_accepting_probe(registry, kind_name, cursor, 0);
    if k < n {
        Some((cursor + k) % n)
    } else {
        None
    }
}

/// Where the cursor stands after the choice: one past the last worker probed,
/// wrapped; unchanged where no worker is registered.
pub open spec fn cursor_after(registry: Seq<crate::models::WorkerView>, kind_name: Seq<char>, cursor: int) -> int {
    let n = registry.len() as int;
    let k = first_accepting_probe(registry, kind_name, cursor, 0);
    if n == 0 {
        cursor
    } else if k < n {
        (cursor + k + 1) % n
    } else {
        cursor % n
    }
}

/// Before the first accepting probe every probe is refused, and that probe
/// itself is accepted.
pub proof fn lemma_first_accepting_probe(
    registry: Seq<crate::models::WorkerView>,
    kind_name: Seq<char>,
    cursor: int,
    from: int,
)
    requires
        0 <= from <= registry.len(),
    ensures
        from <= first_accepting_probe(registry, kind_name, cursor, from) <= registry.len(),
        forall|j: int|
            from <= j < first_accepting_probe(registry, kind_name, cursor, from) ==> !(
            #[trigger] registry[(cursor + j) % (registry.len() as int)]).handles(kind_name),
        first_accepting_probe(registry, kind_name, cursor, from) < registry.len() ==> registry[(
        cursor + first_accepting_probe(registry, kind_name, cursor, from)) % (
        registry.len() as int)].handles(kind_name),
    decreases registry.len() - from,
{
    let n = registry.len() as int;
    if from < n && !registry[(cursor + from) % n].handles(kind_name) {
        lemma_first_accepting_probe(registry, kind_name, cursor, from + 1);
    }
}

/// The coordinator: a driver, the registered workers in the order in which
/// they registered, and the round-robin cursor.
pub struct Broker<B: BrokerCore> {
    pub uri: String,
    pub broker: B,
    pub workers: Vec<Worker>,
    pub workers_index: usize,
    /// The operations that the driver has reported as accepted since the
    /// coordinator was made, oldest first.
    pub accepted: Ghost<Seq<crate::driver::Operation>>,
}

impl<B: BrokerCore> Broker<B> {
    /// The views of the registered workers, in order.
    pub open spec fn registry(&self) -> Seq<crate::models::WorkerView> {
        registry_view(self.workers@)
    }

    /// Whether every registered worker has its queue: the driver accepted the
    /// declaration of a queue named by the worker's identifier and no deletion
    /// of it since.
    pub open spec fn backed(&self) -> bool {
        queues_present(self.registry(), self.accepted@)
    }

    /// A coordinator on the given driver, with no worker registered and the
    /// cursor at the start, once the submission exchange is declared.
    ///
    /// An address that names no supported broker is rejected before the driver
    /// is called. Otherwise the driver decides between success and its error.
    pub fn new(uri: &str, broker: B) -> (r: Result<Self, BrokerError>)
        ensures
            scheme_of(uri@) != "amqp"@ ==> r is Err && r->Err_0 == BrokerError::InvalidUri,
            scheme_of(uri@) == "amqp"@ ==> match r {
                Ok(made) => {
                    &&& made.uri@ == uri@
                    &&& made.registry() == Seq::<crate::models::WorkerView>::empty()
                    &&& made.workers_index == 0
                    &&& made.accepted@ == Seq::<crate::driver::Operation>::empty().push(
                        crate::driver::Operation::DeclareExchange { exchange: SUBMISSION_EXCHANGE@ },
                    )
                    &&& crate::driver::exchanges_after(made.accepted@).contains(SUBMISSION_EXCHANGE@)
                    &&& made.backed()
                },
                Err(e) => e is Driver,
            },
    {
        match create_broker_connection(uri) {
            Ok(_) => {},
            Err(e) => {
                return Err(e);
            },
        }
        match broker.register_exchange(SUBMISSION_EXCHANGE) {
            Ok(_) => {
                let made = Broker {
                    uri: uri.to_owned(),
                    broker,
                    workers: Vec::new(),
                    workers_index: 0,
                    accepted: Ghost(
                        Seq::empty().push(
                            crate::driver::Operation::DeclareExchange {
                                exchange: SUBMISSION_EXCHANGE@,
                            },
                        ),
                    ),
                };
                assert(made.registry() =~= Seq::<crate::models::WorkerView>::empty());
                assert(made.accepted@.drop_last() =~= Seq::<crate::driver::Operation>::empty());
                Ok(made)
            },
            Err(e) => Err(BrokerError::Driver(e)),
        }
    }

    /// Chooses the worker for a task and advances the cursor past every
    /// worker that was probed. The registry is left as it was.
    pub fn select_worker(&mut self, task: &TaskInstance) -> (r: Option<usize>)
        ensures
            final(self).workers == old(self).workers,
            final(self).accepted == old(self).accepted,
            final(self).uri == old(self).uri,
            final(self).workers_index == cursor_after(
                old(self).registry(),
                task@.task_kind.name,
                old(self).workers_index as int,
            ),
            match r {
                Some(position) => selected_position(
                    old(self).registry(),
                    task@.task_kind.name,
                    old(self).workers_index as int,
                ) == Some(position as int),
                None => selected_position(
                    old(self).registry(),
                    task@.task_kind.name,
                    old(self).workers_index as int,
                ) is None,
            },
    {
        let n = self.workers.len();
        if n == 0 {
            return None;
        }
        let ghost registry = self.registry();
        let ghost kind_name = task@.task_kind.name;
        let ghost cursor = self.workers_index as int;
        let mut at: usize = self.workers_index % n;
        let mut probes: usize = 0;
        while probes < n
            invariant
                n == self.workers.len(),
                n > 0,
                probes <= n,
                at < n,
                at == (cursor + probes) % (n as int),
                registry == self.registry(),
                kind_name == task@.task_kind.name,
                self.workers == old(self).workers,
                self.accepted == old(self).accepted,
                self.uri == old(self).uri,
                cursor == old(self).workers_index,
                first_accepting_probe(registry, kind_name, cursor, 0) == first_accepting_probe(
                    registry,
                    kind_name,
                    cursor,
                    probes as int,
                ),
            decreases n - probes,
        {
            let next: usize = if at + 1 == n {
                0
            } else {
                at + 1
            };
            proof {
                lemma_next_position(cursor, probes as int, n as int);
            }
            if self.workers[at].can_handle(task) {
                self.workers_index = next;
                return Some(at);
            }
            at = next;
            probes = probes + 1;
        }
        proof {
            lemma_full_round(cursor, n as int);
        }
        self.workers_index = at;
        None
    }
}

/// What is handed to the driver to declare the queue of a worker: the queue
/// is named by the worker's identifier and bound under its own name.
pub struct QueueBinding {
    pub exchange: String,
    pub queue: String,
    pub routing_key: String,
}

/// What is handed to the driver to publish a task, and the worker it goes to.
pub struct Publication {
    pub worker_id: Id,
    pub exchange: String,
    pub routing_key: String,
    pub payload: Vec<u8>,
    pub message_id: String,
    pub task_id: String,
}

/// The queue binding of the worker with the given identifier.
pub fn queue_binding(worker_id: &Id) -> (r: QueueBinding)
    ensures
        r.exchange@ == SUBMISSION_EXCHANGE@,
        r.queue@ == worker_id.text(),
        r.routing_key@ == worker_id.text(),
{
    QueueBinding {
        exchange: SUBMISSION_EXCHANGE.to_owned(),
        queue: worker_id.to_string(),
        routing_key: worker_id.to_string(),
    }
}

/// What a publish returns once the driver has answered: the chosen worker
/// where the broker accepted the message, the driver's error where it did not.
pub fn settle_publish(worker_id: Id, outcome: Result<(), DriverError>) -> (r: Result<
    Id,
    BrokerError,
>)
    ensures
        r == match outcome {
            Ok(_) => Ok::<Id, BrokerError>(worker_id),
            Err(e) => Err(BrokerError::Driver(e)),
        },
{
    match outcome {
        Ok(_) => Ok(worker_id),
        Err(e) => Err(BrokerError::Driver(e)),
    }
}

/// The position of the first worker with the given identifier, counted from
/// `from`, or the length of the registry where there is none.
pub open spec fn first_position_of(registry: Seq<crate::models::WorkerView>, worker_id: Id, from: int) -> int
    decreases registry.len() - from,
{
    if from < 0 || from >= registry.len() {
        registry.len() as int
    } else if registry[from].id == worker_id {
        from
    } else {
        first_position_of(registry, worker_id, from + 1)
    }
}

/// The publication that a task leads to, given the position that was chosen
/// and the bytes of its input.
pub open spec fn publication_for(
    publication: Publication,
    registry: Seq<crate::models::WorkerView>,
    position: int,
    task_id: Id,
    payload: Seq<u8>,
) -> bool {
    &&& publication.worker_id == registry[position].id
    &&& publication.exchange@ == SUBMISSION_EXCHANGE@
    &&& publication.routing_key@ == registry[position].id.text()
    &&& publication.payload@ == payload
    &&& publication.message_id@ == task_id.text()
    &&& publication.task_id@ == task_id.text()
}

impl<B: BrokerCore> Broker<B> {
    /// Whether everything but the cursor is as in `before`.
    pub open spec fn same_but_cursor(&self, before: &Self) -> bool {
        &&& self.workers == before.workers
        &&& self.accepted == before.accepted
        &&& self.uri == before.uri
    }

    /// Chooses the worker for a task, advances the cursor, and builds the
    /// message for the driver: the input of the task as the body, the task's
    /// identifier as message identifier and in the header, on the submission
    /// exchange under the key of the chosen worker.
    pub fn prepare_publish(&mut self, task: &TaskInstance) -> (r: Result<Publication, BrokerError>)
        ensures
            final(self).same_but_cursor(old(self)),
            final(self).workers_index == cursor_after(
                old(self).registry(),
                task@.task_kind.name,
                old(self).workers_index as int,
            ),
            match selected_position(
                old(self).registry(),
                task@.task_kind.name,
                old(self).workers_index as int,
            ) {
                None => r == Err::<Publication, BrokerError>(BrokerError::NoAvailableWorker),
                Some(position) => {
                    &&& r is Ok
                    &&& crate::models::json_payload(task@.input_data) matches Some(body)
                        && publication_for(r->Ok_0, old(self).registry(), position, task.id, body)
                    &&& task@.input_data is None ==> r->Ok_0.payload@
                        == crate::models::null_bytes()
                },
            },
    {
        let position = match self.select_worker(task) {
            Some(position) => position,
            None => {
                return Err(BrokerError::NoAvailableWorker);
            },
        };
        proof {
            lemma_first_accepting_probe(
                old(self).registry(),
                task@.task_kind.name,
                old(self).workers_index as int,
                0,
            );
        }
        let payload = payload(&task.input_data);
        let worker_id = self.workers[position].id;
        Ok(
            Publication {
                worker_id,
                exchange: SUBMISSION_EXCHANGE.to_owned(),
                routing_key: worker_id.to_string(),
                payload,
                message_id: task.id.to_string(),
                task_id: task.id.to_string(),
            },
        )
    }

    /// Sends a task to the next worker that handles its kind and returns that
    /// worker's identifier.
    ///
    /// The cursor moves whether or not the message is accepted; the registry
    /// never changes. Where a worker was chosen the driver decides: either it
    /// accepts the one message, addressed to the chosen worker and identified
    /// by the task, or it reports an error and has accepted nothing. A task
    /// without input is published with the body `null`.
    pub fn publish(&mut self, task: &TaskInstance) -> (r: Result<Id, BrokerError>)
        ensures
            final(self).workers == old(self).workers,
            old(self).backed() ==> final(self).backed(),
            final(self).uri == old(self).uri,
            final(self).workers_index == cursor_after(
                old(self).registry(),
                task@.task_kind.name,
                old(self).workers_index as int,
            ),
            match selected_position(
                old(self).registry(),
                task@.task_kind.name,
                old(self).workers_index as int,
            ) {
                None => r == Err::<Id, BrokerError>(BrokerError::NoAvailableWorker) && final(self).accepted == old(self).accepted,
                Some(position) => {
                    let worker_id = old(self).registry()[position].id;
                    &&& crate::models::json_payload(task@.input_data) matches Some(body) && {
                        let message = crate::driver::Operation::Publish {
                            exchange: SUBMISSION_EXCHANGE@,
                            routing_key: worker_id.text(),
                            payload: body,
                            message_id: task.id.text(),
                            task_id: task.id.text(),
                        };
                        ||| r == Ok::<Id, BrokerError>(worker_id) && final(self).accepted@
                            == old(self).accepted@.push(message)
                        ||| r is Err && r->Err_0 is Driver && final(self).accepted@ == old(self).accepted@
                    }
                    &&& task@.input_data is None ==> crate::models::json_payload(task@.input_data)
                        == Some(crate::models::null_bytes())
                },
            },
    {
        let publication = match self.prepare_publish(task) {
            Ok(publication) => publication,
            Err(e) => {
                return Err(e);
            },
        };
        let outcome = self.broker.publish_message(
            publication.exchange.as_str(),
            publication.routing_key.as_str(),
            publication.payload.as_slice(),
            publication.message_id.as_str(),
            publication.task_id.as_str(),
        );
        if outcome.is_ok() {
            let ghost message = crate::driver::Operation::Publish {
                exchange: publication.exchange@,
                routing_key: publication.routing_key@,
                payload: publication.payload@,
                message_id: publication.message_id@,
                task_id: publication.task_id@,
            };
            proof {
                if old(self).backed() {
                    lemma_publication_keeps_queues(self.registry(), self.accepted@, message);
                }
            }
            self.accepted = Ghost(self.accepted@.push(message));
        }
        settle_publish(publication.worker_id, outcome)
    }

    /// Takes a worker into the registry once the driver has answered the
    /// declaration of its queue: at the end of the registry where the queue was
    /// declared, not at all where it was not.
    pub fn conclude_registration(&mut self, worker: Worker, outcome: Result<(), DriverError>) -> (r:
        Result<(), BrokerError>)
        ensures
            final(self).workers_index == old(self).workers_index,
            final(self).accepted == old(self).accepted,
            final(self).uri == old(self).uri,
            match outcome {
                Ok(_) => r is Ok && final(self).registry() == old(self).registry().push(worker@),
                Err(e) => r == Err::<(), BrokerError>(BrokerError::Driver(e))
                    && final(self).workers == old(self).workers,
            },
    {
        match outcome {
            Ok(_) => {
                self.workers.push(worker);
                assert(self.registry() =~= old(self).registry().push(worker@));
                Ok(())
            },
            Err(e) => Err(BrokerError::Driver(e)),
        }
    }

    /// Declares the queue of a worker and, where the driver accepts that,
    /// appends the worker to the registry. A worker that is registered again is
    /// appended again. Where the driver fails, nothing changes.
    pub fn register_worker(&mut self, worker: Worker) -> (r: Result<(), BrokerError>)
        ensures
            final(self).workers_index == old(self).workers_index,
            old(self).backed() ==> final(self).backed(),
            r is Ok ==> crate::driver::queues_after(final(self).accepted@).contains(
                worker.id.text(),
            ),
            final(self).uri == old(self).uri,
            match r {
                Ok(_) => {
                    &&& final(self).registry() == old(self).registry().push(worker@)
                    &&& final(self).accepted@ == old(self).accepted@.push(
                        crate::driver::Operation::DeclareQueue {
                            exchange: SUBMISSION_EXCHANGE@,
                            queue: worker.id.text(),
                            routing_key: worker.id.text(),
                        },
                    )
                },
                Err(e) => {
                    &&& e is Driver
                    &&& final(self).workers == old(self).workers
                    &&& final(self).accepted@ == old(self).accepted@
                },
            },
    {
        let binding = queue_binding(&worker.id);
        let outcome = self.broker.register_queue(
            binding.exchange.as_str(),
            binding.queue.as_str(),
            binding.routing_key.as_str(),
        );
        if outcome.is_ok() {
            proof {
                if old(self).backed() {
                    lemma_registration_keeps_queues(self.registry(), self.accepted@, worker@);
                }
                crate::driver::lemma_queues_after_push(
                    self.accepted@,
                    crate::driver::Operation::DeclareQueue {
                        exchange: binding.exchange@,
                        queue: binding.queue@,
                        routing_key: binding.routing_key@,
                    },
                );
            }
            self.accepted = Ghost(
                self.accepted@.push(
                    crate::driver::Operation::DeclareQueue {
                        exchange: binding.exchange@,
                        queue: binding.queue@,
                        routing_key: binding.routing_key@,
                    },
                ),
            );
        }
        self.conclude_registration(worker, outcome)
    }

    /// Takes the first worker with the given identifier out of the registry.
    /// Says whether there was one; the cursor stays where it was.
    pub fn unlist_worker(&mut self, worker_id: &Id) -> (r: bool)
        ensures
            final(self).workers_index == old(self).workers_index,
            final(self).accepted == old(self).accepted,
            final(self).uri == old(self).uri,
            r == (first_position_of(old(self).registry(), *worker_id, 0) < old(self).registry().len()),
            r ==> final(self).registry() == old(self).registry().remove(
                first_position_of(old(self).registry(), *worker_id, 0),
            ),
            !r ==> final(self).workers == old(self).workers,
    {
        let mut i: usize = 0;
        while i < self.workers.len()
            invariant
                i <= self.workers.len(),
                self.workers == old(self).workers,
                self.workers_index == old(self).workers_index,
                self.accepted == old(self).accepted,
                self.uri == old(self).uri,
                first_position_of(old(self).registry(), *worker_id, 0) == first_position_of(
                    old(self).registry(),
                    *worker_id,
                    i as int,
                ),
            decreases self.workers.len() - i,
        {
            if self.workers[i].id == *worker_id {
                self.workers.remove(i);
                assert(self.registry() =~= old(self).registry().remove(i as int));
                return true;
            }
            i = i + 1;
        }
        false
    }

    /// Removes the first worker with the given identifier from the registry
    /// and deletes its queue.
    ///
    /// Fails, and calls no driver, where no such worker is registered. The
    /// worker leaves the registry before the queue is deleted, so it is gone
    /// also where the driver then fails.
    pub fn remove_worker(&mut self, worker_id: &Id) -> (r: Result<(), BrokerError>)
        ensures
            final(self).workers_index == old(self).workers_index,
            old(self).backed() && distinct_ids(old(self).registry()) ==> final(self).backed()
                && distinct_ids(final(self).registry()),
            r is Ok && distinct_ids(old(self).registry()) ==> !crate::driver::queues_after(
                final(self).accepted@,
            ).contains(worker_id.text()),
            final(self).uri == old(self).uri,
            first_position_of(old(self).registry(), *worker_id, 0) >= old(self).registry().len()
                ==> {
                &&& r == Err::<(), BrokerError>(BrokerError::UnknownWorker)
                &&& final(self).workers == old(self).workers
                &&& final(self).accepted == old(self).accepted
            },
            first_position_of(old(self).registry(), *worker_id, 0) < old(self).registry().len() ==> {
                &&& final(self).registry() == old(self).registry().remove(
                    first_position_of(old(self).registry(), *worker_id, 0),
                )
                &&& {
                    ||| r is Ok && final(self).accepted@ == old(self).accepted@.push(
                        crate::driver::Operation::DeleteQueue { queue: worker_id.text() },
                    )
                    ||| r is Err && r->Err_0 is Driver && final(self).accepted@ == old(self).accepted@
                }
            },
    {
        if !self.unlist_worker(worker_id) {
            return Err(BrokerError::UnknownWorker);
        }
        proof {
            let registry = old(self).registry();
            let position = first_position_of(registry, *worker_id, 0);
            lemma_first_position_of(registry, *worker_id, 0);
            if distinct_ids(registry) {
                if old(self).backed() {
                    lemma_removal_keeps_queues(registry, self.accepted@, position);
                    assert forall|i: int| 0 <= i < self.registry().len() implies crate::driver::queues_after(
                        self.accepted@,
                    ).contains((#[trigger] self.registry()[i]).id.text()) by {
                        let from = if i < position {
                            i
                        } else {
                            i + 1
                        };
                        assert(self.registry()[i] == registry[from]);
                    }
                }
                crate::driver::lemma_queues_after_push(
                    self.accepted@,
                    crate::driver::Operation::DeleteQueue { queue: worker_id.text() },
                );
                lemma_distinct_after_removal(registry, position);
            }
        }
        let queue = worker_id.to_string();
        match self.broker.delete_queue(queue.as_str()) {
            Ok(_) => {
                self.accepted = Ghost(
                    self.accepted@.push(crate::driver::Operation::DeleteQueue { queue: queue@ }),
                );
                Ok(())
            },
            Err(e) => Err(BrokerError::Driver(e)),
        }
    }
}

/// One step of the cursor: the position after `probes + 1` probes is the one
/// after the position after `probes`, wrapped.
proof fn lemma_next_position(cursor: int, probes: int, n: int)
    requires
        0 <= cursor,
        0 <= probes,
        0 < n,
    ensures
        (cursor + probes + 1) % n == if (cursor + probes) % n + 1 == n {
            0
        } else {
            (cursor + probes) % n + 1
        },
{
    vstd::arithmetic::div_mod::lemma_add_mod_noop(cursor + probes, 1, n);
    vstd::arithmetic::div_mod::lemma_mod_bound(cursor + probes, n);
    if n == 1 {
        assert((cursor + probes + 1) % 1 == 0);
    } else {
        vstd::arithmetic::div_mod::lemma_small_mod(1, n as nat);
        if (cursor + probes) % n + 1 == n {
            vstd::arithmetic::div_mod::lemma_mod_self_0(n);
        } else {
            vstd::arithmetic::div_mod::lemma_small_mod(((cursor + probes) % n + 1) as nat, n as nat);
        }
    }
}

/// After as many probes as there are workers the cursor is back where it
/// started, wrapped.
proof fn lemma_full_round(cursor: int, n: int)
    requires
        0 <= cursor,
        0 < n,
    ensures
        (cursor + n) % n == cursor % n,
{
    vstd::arithmetic::div_mod::lemma_mod_add_multiples_vanish(cursor, n);
}

/// Every position of the registry is looked at by one of the probes of a
/// full round, wherever the cursor stands.
proof fn lemma_probe_reaches(cursor: int, n: int, position: int) -> (probe: int)
    requires
        0 <= cursor,
        0 <= position < n,
    ensures
        0 <= probe < n,
        (cursor + probe) % n == position,
{
    let start = cursor % n;
    let probe = if position >= start {
        position - start
    } else {
        position - start + n
    };
    vstd::arithmetic::div_mod::lemma_mod_bound(cursor, n);
    vstd::arithmetic::div_mod::lemma_fundamental_div_mod(cursor, n);
    let rest = start + probe;
    assert(cursor + probe == n * (cursor / n) + rest);
    vstd::arithmetic::div_mod::lemma_mod_multiples_vanish(cursor / n, rest, n);
    if rest < n {
        vstd::arithmetic::div_mod::lemma_small_mod(rest as nat, n as nat);
    } else {
        vstd::arithmetic::div_mod::lemma_mod_add_multiples_vanish(position, n);
        vstd::arithmetic::div_mod::lemma_small_mod(position as nat, n as nat);
    }
    probe
}

/// The worker that is chosen handles the kind of the task, and no worker is
/// chosen exactly where no registered worker handles it.
pub proof fn lemma_selection(
    registry: Seq<crate::models::WorkerView>,
    kind_name: Seq<char>,
    cursor: int,
)
    requires
        0 <= cursor,
    ensures
        selected_position(registry, kind_name, cursor) matches Some(position) ==> 0 <= position
            < registry.len() && registry[position].handles(kind_name),
        selected_position(registry, kind_name, cursor) is None <==> forall|i: int|
            0 <= i < registry.len() ==> !(#[trigger] registry[i]).handles(kind_name),
{
    let n = registry.len() as int;
    lemma_first_accepting_probe(registry, kind_name, cursor, 0);
    let first = first_accepting_probe(registry, kind_name, cursor, 0);
    if first < n {
        vstd::arithmetic::div_mod::lemma_mod_bound(cursor + first, n);
    } else {
        assert forall|i: int| 0 <= i < n implies !(#[trigger] registry[i]).handles(kind_name) by {
            let probe = lemma_probe_reaches(cursor, n, i);
            assert(!registry[(cursor + probe) % n].handles(kind_name));
        }
    }
}

/// Where the cursor stands after a number of choices for tasks of one kind,
/// made one after the other on a registry that does not change.
pub open spec fn cursor_after_rounds(
    registry: Seq<crate::models::WorkerView>,
    kind_name: Seq<char>,
    cursor: int,
    rounds: nat,
) -> int
    decreases rounds,
{
    if rounds == 0 {
        cursor
    } else {
        cursor_after(
            registry,
            kind_name,
            cursor_after_rounds(registry, kind_name, cursor, (rounds - 1) as nat),
        )
    }
}

/// Round robin: where every registered worker handles the kind, the choice
/// after `rounds` earlier choices falls on the worker `rounds` positions after
/// the cursor, wrapped. From a cursor at the start the workers are chosen in
/// the order of the registry, again and again.
pub proof fn lemma_round_robin(
    registry: Seq<crate::models::WorkerView>,
    kind_name: Seq<char>,
    cursor: int,
    rounds: nat,
)
    requires
        0 <= cursor,
        registry.len() > 0,
        forall|i: int| 0 <= i < registry.len() ==> (#[trigger] registry[i]).handles(kind_name),
    ensures
        selected_position(
            registry,
            kind_name,
            cursor_after_rounds(registry, kind_name, cursor, rounds),
        ) == Some((cursor + rounds) % (registry.len() as int)),
        cursor_after_rounds(registry, kind_name, cursor, rounds + 1) == (cursor + rounds + 1) % (
        registry.len() as int),
    decreases rounds,
{
    let n = registry.len() as int;
    let now = cursor_after_rounds(registry, kind_name, cursor, rounds);
    if rounds > 0 {
        lemma_round_robin(registry, kind_name, cursor, (rounds - 1) as nat);
        assert(now == (cursor + rounds) % n);
        vstd::arithmetic::div_mod::lemma_mod_bound(cursor + rounds, n);
        vstd::arithmetic::div_mod::lemma_small_mod(now as nat, n as nat);
        vstd::arithmetic::div_mod::lemma_add_mod_noop(cursor + rounds, 1, n);
        vstd::arithmetic::div_mod::lemma_add_mod_noop(now, 1, n);
    }
    vstd::arithmetic::div_mod::lemma_mod_bound(now, n);
    assert(registry[now % n].handles(kind_name));
    assert(first_accepting_probe(registry, kind_name, now, 0) == 0);
}

/// Whether no identifier occurs twice in the registry.
pub open spec fn distinct_ids(registry: Seq<crate::models::WorkerView>) -> bool {
    forall|i: int, j: int|
        #![trigger registry[i], registry[j]]
        0 <= i < j < registry.len() ==> registry[i].id != registry[j].id
}

/// Whether every worker of the registry has its queue after the operations
/// of the log.
pub open spec fn queues_present(
    registry: Seq<crate::models::WorkerView>,
    log: Seq<crate::driver::Operation>,
) -> bool {
    forall|i: int|
        0 <= i < registry.len() ==> crate::driver::queues_after(log).contains(
            (#[trigger] registry[i]).id.text(),
        )
}

/// A worker that registers has its queue, and so has every worker that had
/// it before.
pub proof fn lemma_registration_keeps_queues(
    registry: Seq<crate::models::WorkerView>,
    log: Seq<crate::driver::Operation>,
    worker: crate::models::WorkerView,
)
    requires
        queues_present(registry, log),
    ensures
        queues_present(
            registry.push(worker),
            log.push(
                crate::driver::Operation::DeclareQueue {
                    exchange: SUBMISSION_EXCHANGE@,
                    queue: worker.id.text(),
                    routing_key: worker.id.text(),
                },
            ),
        ),
{
    let declared = crate::driver::Operation::DeclareQueue {
        exchange: SUBMISSION_EXCHANGE@,
        queue: worker.id.text(),
        routing_key: worker.id.text(),
    };
    crate::driver::lemma_queues_after_push(log, declared);
    let longer = registry.push(worker);
    assert forall|i: int| 0 <= i < longer.len() implies crate::driver::queues_after(
        log.push(declared),
    ).contains((#[trigger] longer[i]).id.text()) by {
        if i < registry.len() {
            assert(longer[i] == registry[i]);
        }
    }
}

/// Publishing a message touches no queue.
pub proof fn lemma_publication_keeps_queues(
    registry: Seq<crate::models::WorkerView>,
    log: Seq<crate::driver::Operation>,
    message: crate::driver::Operation,
)
    requires
        queues_present(registry, log),
        message is Publish,
    ensures
        queues_present(registry, log.push(message)),
{
    crate::driver::lemma_queues_after_push(log, message);
}

/// Where no identifier occurs twice in the registry, the workers that stay
/// after one was removed keep their queues, and the queue of the one that was
/// removed is gone.
pub proof fn lemma_removal_keeps_queues(
    registry: Seq<crate::models::WorkerView>,
    log: Seq<crate::driver::Operation>,
    position: int,
)
    requires
        queues_present(registry, log),
        distinct_ids(registry),
        0 <= position < registry.len(),
    ensures
        queues_present(
            registry.remove(position),
            log.push(crate::driver::Operation::DeleteQueue { queue: registry[position].id.text() }),
        ),
        !crate::driver::queues_after(
            log.push(crate::driver::Operation::DeleteQueue { queue: registry[position].id.text() }),
        ).contains(registry[position].id.text()),
        distinct_ids(registry.remove(position)),
{
    let deleted = crate::driver::Operation::DeleteQueue { queue: registry[position].id.text() };
    crate::driver::lemma_queues_after_push(log, deleted);
    let shorter = registry.remove(position);
    assert forall|i: int| 0 <= i < shorter.len() implies crate::driver::queues_after(
        log.push(deleted),
    ).contains((#[trigger] shorter[i]).id.text()) by {
        let from = if i < position {
            i
        } else {
            i + 1
        };
        assert(shorter[i] == registry[from]);
        if from < position {
            assert(registry[from].id != registry[position].id);
        } else {
            assert(registry[position].id != registry[from].id);
        }
        if registry[from].id.text() == registry[position].id.text() {
            crate::ident::lemma_text_injective(registry[from].id, registry[position].id);
        }
    }
    lemma_distinct_after_removal(registry, position);
}

/// The first position of an identifier lies in the registry or is its
/// length, and the worker at it has the identifier.
pub proof fn lemma_first_position_of(
    registry: Seq<crate::models::WorkerView>,
    worker_id: Id,
    from: int,
)
    requires
        0 <= from <= registry.len(),
    ensures
        from <= first_position_of(registry, worker_id, from) <= registry.len(),
        first_position_of(registry, worker_id, from) < registry.len() ==> registry[first_position_of(
            registry,
            worker_id,
            from,
        )].id == worker_id,
        forall|j: int|
            from <= j < first_position_of(registry, worker_id, from) ==> (#[trigger] registry[j]).id
                != worker_id,
    decreases registry.len() - from,
{
    if from < registry.len() && registry[from].id != worker_id {
        lemma_first_position_of(registry, worker_id, from + 1);
    }
}

/// A registry without a repeated identifier has none after a removal.
pub proof fn lemma_distinct_after_removal(registry: Seq<crate::models::WorkerView>, position: int)
    requires
        distinct_ids(registry),
        0 <= position < registry.len(),
    ensures
        distinct_ids(registry.remove(position)),
{
    let shorter = registry.remove(position);
    assert forall|i: int, j: int| 0 <= i < j < shorter.len() implies shorter[i].id
        != shorter[j].id by {
        let a = if i < position {
            i
        } else {
            i + 1
        };
        let b = if j < position {
            j
        } else {
            j + 1
        };
        assert(shorter[i] == registry[a]);
        assert(shorter[j] == registry[b]);
        assert(registry[a].id != registry[b].id);
    }
}

} // verus!
