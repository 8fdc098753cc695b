//! The narrow interface between the coordinator and a broker driver, and the
//! record of what a driver has accepted.

use vstd::prelude::*;

verus! {

/// What a broker driver reports when an operation fails.
#[derive(Clone, Copy, Debug, PartialEq, Eq, Structural)]
pub enum DriverError {
    ConnectFailed,
    DeclareFailed,
    PublishFailed,
    NotFound,
}

impl DriverError {
    /// The words for the error.
    pub open spec fn text(self) -> Seq<char> {
        match self {
            DriverError::ConnectFailed => "broker connection failed"@,
            DriverError::DeclareFailed => "broker declaration failed"@,
            DriverError::PublishFailed => "broker publish failed"@,
            DriverError::NotFound => "not found on the broker"@,
        }
    }

    /// The words for the error.
    pub fn message(self) -> (r: &'static str)
        ensures
            r@ == self.text(),
    {
        match self {
            DriverError::ConnectFailed => "broker connection failed",
            DriverError::DeclareFailed => "broker declaration failed",
            DriverError::PublishFailed => "broker publish failed",
            DriverError::NotFound => "not found on the broker",
        }
    }
}

/// One operation that a driver reported as accepted by the broker.
pub ghost enum Operation {
    DeclareExchange { exchange: Seq<char> },
    DeclareQueue { exchange: Seq<char>, queue: Seq<char>, routing_key: Seq<char> },
    DeleteQueue { queue: Seq<char> },
    DeleteExchange { exchange: Seq<char> },
    Publish {
        exchange: Seq<char>,
        routing_key: Seq<char>,
        payload: Seq<u8>,
        message_id: Seq<char>,
        task_id: Seq<char>,
    },
}

/// The operations that a broker driver offers to the coordinator.
///
/// Declaring is idempotent, and deleting what is absent is no error. A
/// message that was published with success has been accepted by the broker. A
/// driver reports its failures and does not retry. Nothing of this is assumed
/// in a proof: the coordinator goes by the answer of each call alone.
pub trait BrokerCore {
    /// Declares a durable direct exchange.
    fn register_exchange(&self, exchange: &str) -> Result<(), DriverError>;

    /// Declares a durable queue and binds it to the exchange under the key.
    fn register_queue(&self, exchange: &str, queue: &str, routing_key: &str) -> Result<
        (),
        DriverError,
    >;

    /// Removes a queue if it is present.
    fn delete_queue(&self, queue: &str) -> Result<(), DriverError>;

    /// Removes an exchange if it is present.
    fn delete_exchange(&self, exchange: &str) -> Result<(), DriverError>;

    /// Publishes one message with its identifier in the metadata and the task
    /// identifier in the header named `task_kind`.
    fn publish_message(
        &self,
        exchange: &str,
        routing_key: &str,
        payload: &[u8],
        message_id: &str,
        task_id: &str,
    ) -> Result<(), DriverError>;
}

/// What the driver's answer to a delete means: that the queue or exchange was
/// absent is no error.
pub fn settle_delete(outcome: Result<(), DriverError>) -> (r: Result<(), DriverError>)
    ensures
        r == match outcome {
            Err(DriverError::NotFound) => Ok::<(), DriverError>(()),
            other => other,
        },
{
    match outcome {
        Err(DriverError::NotFound) => Ok(()),
        other => other,
    }
}

/// The queues that exist after the operations of a log: those declared and
/// not deleted since.
pub open spec fn queues_after(log: Seq<Operation>) -> Set<Seq<char>>
    decreases log.len(),
{
    if log.len() == 0 {
        Set::empty()
    } else {
        let earlier = queues_after(log.drop_last());
        match log.last() {
            Operation::DeclareQueue { queue, .. } => earlier.insert(queue),
            Operation::DeleteQueue { queue } => earlier.remove(queue),
            _ => earlier,
        }
    }
}

/// The exchanges that exist after the operations of a log.
pub open spec fn exchanges_after(log: Seq<Operation>) -> Set<Seq<char>>
    decreases log.len(),
{
    if log.len() == 0 {
        Set::empty()
    } else {
        let earlier = exchanges_after(log.drop_last());
        match log.last() {
            Operation::DeclareExchange { exchange } => earlier.insert(exchange),
            Operation::DeleteExchange { exchange } => earlier.remove(exchange),
            _ => earlier,
        }
    }
}

/// The number of messages in a log that were published with the given
/// message identifier under the given routing key.
pub open spec fn deliveries(log: Seq<Operation>, message_id: Seq<char>, routing_key: Seq<char>) -> nat
    decreases log.len(),
{
    if log.len() == 0 {
        0
    } else {
        let earlier = deliveries(log.drop_last(), message_id, routing_key);
        match log.last() {
            Operation::Publish { routing_key: key, message_id: id, .. } => if id == message_id && key
                == routing_key {
                earlier + 1
            } else {
                earlier
            },
            _ => earlier,
        }
    }
}

/// What one more accepted operation does to the queues.
pub proof fn lemma_queues_after_push(log: Seq<Operation>, operation: Operation)
    ensures
        queues_after(log.push(operation)) == match operation {
            Operation::DeclareQueue { queue, .. } => queues_after(log).insert(queue),
            Operation::DeleteQueue { queue } => queues_after(log).remove(queue),
            _ => queues_after(log),
        },
{
    assert(log.push(operation).drop_last() =~= log);
}

/// What one more accepted operation does to the count of deliveries.
pub proof fn lemma_deliveries_push(
    log: Seq<Operation>,
    operation: Operation,
    message_id: Seq<char>,
    routing_key: Seq<char>,
)
    ensures
        deliveries(log.push(operation), message_id, routing_key) == deliveries(
            log,
            message_id,
            routing_key,
        ) + match operation {
            Operation::Publish { routing_key: key, message_id: id, .. } => if id == message_id && key
                == routing_key {
                1nat
            } else {
                0nat
            },
            _ => 0nat,
        },
{
    assert(log.push(operation).drop_last() =~= log);
}

/// A message identifier that no published message of a log carries has no
/// delivery in it.
pub proof fn lemma_no_deliveries(
    log: Seq<Operation>,
    message_id: Seq<char>,
    routing_key: Seq<char>,
)
    requires
        forall|i: int|
            0 <= i < log.len() && (#[trigger] log[i]) is Publish ==> log[i]->message_id
                != message_id,
    ensures
        deliveries(log, message_id, routing_key) == 0,
    decreases log.len(),
{
    if log.len() > 0 {
        let earlier = log.drop_last();
        assert forall|i: int| 0 <= i < earlier.len() && (#[trigger] earlier[i]) is Publish implies earlier[i]->message_id
            != message_id by {
            assert(earlier[i] == log[i]);
        }
        lemma_no_deliveries(earlier, message_id, routing_key);
        assert(log.last() == log[log.len() - 1]);
    }
}

/// A queue that is declared, deleted and declared again is present.
pub proof fn lemma_queue_present_after_redeclaration(
    log: Seq<Operation>,
    exchange: Seq<char>,
    queue: Seq<char>,
    routing_key: Seq<char>,
)
    ensures
        queues_after(
            log.push(Operation::DeclareQueue { exchange, queue, routing_key }).push(
                Operation::DeleteQueue { queue },
            ).push(Operation::DeclareQueue { exchange, queue, routing_key }),
        ).contains(queue),
        !queues_after(
            log.push(Operation::DeclareQueue { exchange, queue, routing_key }).push(
                Operation::DeleteQueue { queue },
            ),
        ).contains(queue),
{
    let declared = log.push(Operation::DeclareQueue { exchange, queue, routing_key });
    let deleted = declared.push(Operation::DeleteQueue { queue });
    lemma_queues_after_push(deleted, Operation::DeclareQueue { exchange, queue, routing_key });
    lemma_queues_after_push(declared, Operation::DeleteQueue { queue });
}

/// A driver that reaches no broker and reports success for every operation.
#[derive(Clone, Copy, Debug)]
pub struct MockBrokerCore;

impl MockBrokerCore {
    /// The driver.
    pub fn new() -> (r: Self) {
        MockBrokerCore
    }
}

impl BrokerCore for MockBrokerCore {
    fn register_exchange(&self, exchange: &str) -> (r: Result<(), DriverError>)
        ensures
            r is Ok,
    {
        Ok(())
    }

    fn register_queue(&self, exchange: &str, queue: &str, routing_key: &str) -> (r: Result<
        (),
        DriverError,
    >)
        ensures
            r is Ok,
    {
        Ok(())
    }

    fn delete_queue(&self, queue: &str) -> (r: Result<(), DriverError>)
        ensures
            r is Ok,
    {
        Ok(())
    }

    fn delete_exchange(&self, exchange: &str) -> (r: Result<(), DriverError>)
        ensures
            r is Ok,
    {
        Ok(())
    }

    fn publish_message(
        &self,
        exchange: &str,
        routing_key: &str,
        payload: &[u8],
        message_id: &str,
        task_id: &str,
    ) -> (r: Result<(), DriverError>)
        ensures
            r is Ok,
    {
        Ok(())
    }
}

} // verus!
