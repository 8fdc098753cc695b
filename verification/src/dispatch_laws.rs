//! What holds across the store and the broker: every task that is assigned
//! was published exactly once, to the worker it is assigned to.

use crate::ident::Id;
use vstd::prelude::*;

verus! {

/// Whether the store and the log of accepted operations agree: every message
/// in the log carries the identifier of a task of the store, and for every
/// task that is assigned the log holds exactly one message with the identifier
/// of the task under the key of its worker.
pub open spec fn dispatch_consistent(
    tables: crate::store::Tables,
    log: Seq<crate::driver::Operation>,
) -> bool {
    &&& forall|i: int|
        0 <= i < log.len() && (#[trigger] log[i]) is Publish ==> exists|j: int|
            0 <= j < tables.tasks.len() && (#[trigger] tables.tasks[j]).id.text()
                == log[i]->message_id
    &&& forall|j: int|
        0 <= j < tables.tasks.len() && (#[trigger] tables.tasks[j]).assigned_to is Some
            ==> crate::driver::deliveries(
            log,
            tables.tasks[j].id.text(),
            tables.tasks[j].assigned_to->Some_0.text(),
        ) == 1
}

/// An empty store and an empty log agree.
pub proof fn lemma_consistent_at_start()
    ensures
        dispatch_consistent(crate::store::Tables::empty(), Seq::empty()),
{
}

/// A task whose identifier is not in the store has no message in a log that
/// agrees with the store.
pub proof fn lemma_unknown_task_unpublished(
    tables: crate::store::Tables,
    log: Seq<crate::driver::Operation>,
    task_id: Id,
    routing_key: Seq<char>,
)
    requires
        dispatch_consistent(tables, log),
        tables.task_row(task_id) is None,
    ensures
        crate::driver::deliveries(log, task_id.text(), routing_key) == 0,
{
    crate::store_laws::lemma_lookup_none(tables.tasks, crate::store::task_has_id(task_id));
    assert forall|i: int| 0 <= i < log.len() && (#[trigger] log[i]) is Publish implies log[i]->message_id
        != task_id.text() by {
        let j = choose|j: int|
            0 <= j < tables.tasks.len() && (#[trigger] tables.tasks[j]).id.text()
                == log[i]->message_id;
        assert(!crate::store::task_has_id(task_id)(tables.tasks[j]));
        if tables.tasks[j].id.text() == task_id.text() {
            crate::ident::lemma_text_injective(tables.tasks[j].id, task_id);
        }
    }
    crate::driver::lemma_no_deliveries(log, task_id.text(), routing_key);
}

/// A change of the store that leaves the identifier and the assignee of every
/// task, and appends tasks without assignee at most, keeps the agreement.
pub proof fn lemma_consistent_after_store_change(
    before: crate::store::Tables,
    after: crate::store::Tables,
    log: Seq<crate::driver::Operation>,
)
    requires
        dispatch_consistent(before, log),
        before.tasks.len() <= after.tasks.len(),
        forall|j: int|
            0 <= j < before.tasks.len() ==> (#[trigger] after.tasks[j]).id == before.tasks[j].id
                && after.tasks[j].assigned_to == before.tasks[j].assigned_to,
        forall|j: int|
            before.tasks.len() <= j < after.tasks.len() ==> (#[trigger] after.tasks[j]).assigned_to
                is None,
    ensures
        dispatch_consistent(after, log),
{
    assert forall|i: int| 0 <= i < log.len() && (#[trigger] log[i]) is Publish implies exists|
        j: int,
    |
        0 <= j < after.tasks.len() && (#[trigger] after.tasks[j]).id.text()
            == log[i]->message_id by {
        let j = choose|j: int|
            0 <= j < before.tasks.len() && (#[trigger] before.tasks[j]).id.text()
                == log[i]->message_id;
        assert(after.tasks[j].id == before.tasks[j].id);
    }
    assert forall|j: int|
        0 <= j < after.tasks.len() && (#[trigger] after.tasks[j]).assigned_to
            is Some implies crate::driver::deliveries(
        log,
        after.tasks[j].id.text(),
        after.tasks[j].assigned_to->Some_0.text(),
    ) == 1 by {
        assert(before.tasks[j].assigned_to is Some);
    }
}

/// An accepted operation that is no message keeps the agreement.
pub proof fn lemma_consistent_after_other_operation(
    tables: crate::store::Tables,
    log: Seq<crate::driver::Operation>,
    operation: crate::driver::Operation,
)
    requires
        dispatch_consistent(tables, log),
        !(operation is Publish),
    ensures
        dispatch_consistent(tables, log.push(operation)),
{
    let longer = log.push(operation);
    assert forall|i: int| 0 <= i < longer.len() && (#[trigger] longer[i]) is Publish implies exists|
        j: int,
    |
        0 <= j < tables.tasks.len() && (#[trigger] tables.tasks[j]).id.text()
            == longer[i]->message_id by {
        assert(longer[i] == log[i]);
    }
    assert forall|j: int|
        0 <= j < tables.tasks.len() && (#[trigger] tables.tasks[j]).assigned_to
            is Some implies crate::driver::deliveries(
        longer,
        tables.tasks[j].id.text(),
        tables.tasks[j].assigned_to->Some_0.text(),
    ) == 1 by {
        crate::driver::lemma_deliveries_push(
            log,
            operation,
            tables.tasks[j].id.text(),
            tables.tasks[j].assigned_to->Some_0.text(),
        );
    }
}

/// The message of a task that is in the store without assignee, and that was
/// not published before, keeps the agreement; and once the task is assigned to
/// the worker that the message went to, the agreement holds again, with
/// exactly one message for the task.
pub proof fn lemma_consistent_after_publication(
    tables: crate::store::Tables,
    log: Seq<crate::driver::Operation>,
    task_id: Id,
    worker_id: Id,
    message: crate::driver::Operation,
)
    requires
        tables.well_formed(),
        dispatch_consistent(tables, log),
        tables.task_row(task_id) matches Some(row) && row.assigned_to is None,
        crate::driver::deliveries(log, task_id.text(), worker_id.text()) == 0,
        message is Publish,
        message->message_id == task_id.text(),
        message->Publish_routing_key == worker_id.text(),
    ensures
        dispatch_consistent(tables, log.push(message)),
        dispatch_consistent(tables.with_task_assigned(task_id, worker_id), log.push(message)),
        crate::driver::deliveries(log.push(message), task_id.text(), worker_id.text()) == 1,
{
    let longer = log.push(message);
    let assigned = tables.with_task_assigned(task_id, worker_id);
    crate::store_laws::lemma_lookup_none(tables.tasks, crate::store::task_has_id(task_id));
    crate::store::lemma_first_position(tables.tasks, crate::store::task_has_id(task_id), 0);
    let position = crate::store::first_position(tables.tasks, crate::store::task_has_id(task_id), 0);
    crate::driver::lemma_deliveries_push(log, message, task_id.text(), worker_id.text());
    assert forall|i: int| 0 <= i < longer.len() && (#[trigger] longer[i]) is Publish implies (exists|
        j: int,
    |
        0 <= j < tables.tasks.len() && (#[trigger] tables.tasks[j]).id.text()
            == longer[i]->message_id) && (exists|j: int|
        0 <= j < assigned.tasks.len() && (#[trigger] assigned.tasks[j]).id.text()
            == longer[i]->message_id) by {
        if i < log.len() {
            assert(longer[i] == log[i]);
            let j = choose|j: int|
                0 <= j < tables.tasks.len() && (#[trigger] tables.tasks[j]).id.text()
                    == log[i]->message_id;
            assert(assigned.tasks[j].id == tables.tasks[j].id);
        } else {
            assert(tables.tasks[position].id == task_id);
            assert(assigned.tasks[position].id == task_id);
        }
    }
    assert forall|j: int|
        0 <= j < tables.tasks.len() && (#[trigger] tables.tasks[j]).assigned_to
            is Some implies crate::driver::deliveries(
        longer,
        tables.tasks[j].id.text(),
        tables.tasks[j].assigned_to->Some_0.text(),
    ) == 1 by {
        lemma_other_task(tables, j, position);
        if tables.tasks[j].id.text() == task_id.text() {
            crate::ident::lemma_text_injective(tables.tasks[j].id, task_id);
        }
        crate::driver::lemma_deliveries_push(
            log,
            message,
            tables.tasks[j].id.text(),
            tables.tasks[j].assigned_to->Some_0.text(),
        );
    }
    assert forall|j: int|
        0 <= j < assigned.tasks.len() && (#[trigger] assigned.tasks[j]).assigned_to
            is Some implies crate::driver::deliveries(
        longer,
        assigned.tasks[j].id.text(),
        assigned.tasks[j].assigned_to->Some_0.text(),
    ) == 1 by {
        if tables.tasks[j].id == task_id {
            assert(assigned.tasks[j].assigned_to == Some(worker_id));
        } else {
            assert(assigned.tasks[j] == tables.tasks[j]);
            assert(tables.tasks[j].assigned_to is Some);
        }
    }
}

/// In well-formed tables two rows of tasks at different positions have
/// different identifiers.
proof fn lemma_other_task(tables: crate::store::Tables, j: int, position: int)
    requires
        tables.well_formed(),
        0 <= j < tables.tasks.len(),
        0 <= position < tables.tasks.len(),
    ensures
        j != position ==> tables.tasks[j].id != tables.tasks[position].id,
{
    if j < position {
        assert(tables.tasks[j].id != tables.tasks[position].id);
    } else if position < j {
        assert(tables.tasks[position].id != tables.tasks[j].id);
    }
}

} // verus!
