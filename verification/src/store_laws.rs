//! What holds of the tables of the store: lookups after a change, and the
//! changes that keep the tables well formed.

use crate::ident::Id;
use vstd::prelude::*;

verus! {

/// A row at which `found` holds, and which is the only such row, is the first,
/// so the lookup gives it.
pub proof fn lemma_only_row_is_first<T>(rows: Seq<T>, found: spec_fn(T) -> bool, position: int)
    requires
        0 <= position < rows.len(),
        found(rows[position]),
        forall|j: int| 0 <= j < position ==> !found(#[trigger] rows[j]),
    ensures
        crate::store::first_position(rows, found, 0) == position,
        crate::store::first_row(rows, found) == Some(rows[position]),
{
    crate::store::lemma_first_position(rows, found, 0);
}

/// A lookup finds nothing exactly where `found` holds of no row.
pub proof fn lemma_lookup_none<T>(rows: Seq<T>, found: spec_fn(T) -> bool)
    ensures
        crate::store::first_row(rows, found) is None <==> forall|j: int|
            0 <= j < rows.len() ==> !found(#[trigger] rows[j]),
        crate::store::first_row(rows, found) matches Some(row) ==> found(row) && rows.contains(row),
{
    crate::store::lemma_first_position(rows, found, 0);
}

/// A lookup in a table with one more row: what it found before, or the new
/// row where it found nothing and `found` holds of the new row.
pub proof fn lemma_lookup_after_push<T>(rows: Seq<T>, found: spec_fn(T) -> bool, row: T)
    ensures
        crate::store::first_row(rows.push(row), found) == match crate::store::first_row(
            rows,
            found,
        ) {
            Some(known) => Some(known),
            None => if found(row) {
                Some(row)
            } else {
                None
            },
        },
{
    let longer = rows.push(row);
    crate::store::lemma_first_position(rows, found, 0);
    crate::store::lemma_first_position(longer, found, 0);
    let position = crate::store::first_position(rows, found, 0);
    if position < rows.len() {
        assert(found(longer[position]));
        assert forall|j: int| 0 <= j < position implies !found(#[trigger] longer[j]) by {
            assert(longer[j] == rows[j]);
        }
    } else {
        assert forall|j: int| 0 <= j < rows.len() implies !found(#[trigger] longer[j]) by {
            assert(longer[j] == rows[j]);
        }
        if found(row) {
            assert(found(longer[rows.len() as int]));
        } else {
            assert forall|j: int| 0 <= j < longer.len() implies !found(#[trigger] longer[j]) by {
                if j < rows.len() {
                    assert(longer[j] == rows[j]);
                }
            }
        }
    }
}

/// A lookup in a table whose rows were changed one by one, where the change
/// leaves `found` as it was: the row that was found before, changed.
pub proof fn lemma_lookup_after_change<T>(
    rows: Seq<T>,
    found: spec_fn(T) -> bool,
    change: spec_fn(T) -> T,
)
    requires
        forall|row: T| #[trigger] found(change(row)) == found(row),
    ensures
        crate::store::first_row(rows.map_values(change), found) == match crate::store::first_row(
            rows,
            found,
        ) {
            Some(known) => Some(change(known)),
            None => None,
        },
{
    let changed = rows.map_values(change);
    crate::store::lemma_first_position(rows, found, 0);
    crate::store::lemma_first_position(changed, found, 0);
    let position = crate::store::first_position(rows, found, 0);
    if position < rows.len() {
        assert(changed[position] == change(rows[position]));
        assert forall|j: int| 0 <= j < position implies !found(#[trigger] changed[j]) by {
            assert(changed[j] == change(rows[j]));
        }
    } else {
        assert forall|j: int| 0 <= j < changed.len() implies !found(#[trigger] changed[j]) by {
            assert(changed[j] == change(rows[j]));
        }
    }
}

/// In well-formed tables the lookup of a kind by the identifier of one of
/// its rows gives that row, and so does the lookup by its name.
pub proof fn lemma_kind_lookups(tables: crate::store::Tables, position: int)
    requires
        tables.well_formed(),
        0 <= position < tables.kinds.len(),
    ensures
        tables.kind_with_id(tables.kinds[position].id) == Some(tables.kinds[position]),
        tables.kind_named(tables.kinds[position].name) == Some(tables.kinds[position]),
{
    let kind = tables.kinds[position];
    assert forall|j: int| 0 <= j < position implies !crate::store::kind_has_id(kind.id)(
        #[trigger] tables.kinds[j],
    ) by {
        assert(tables.kinds[j].id != tables.kinds[position].id);
    }
    lemma_only_row_is_first(tables.kinds, crate::store::kind_has_id(kind.id), position);
    assert forall|j: int| 0 <= j < position implies !crate::store::kind_is_named(kind.name)(
        #[trigger] tables.kinds[j],
    ) by {
        assert(tables.kinds[j].name != tables.kinds[position].name);
    }
    lemma_only_row_is_first(tables.kinds, crate::store::kind_is_named(kind.name), position);
}

/// In well-formed tables the lookup of a task by the identifier of one of its
/// rows gives that row.
pub proof fn lemma_task_lookup(tables: crate::store::Tables, position: int)
    requires
        tables.well_formed(),
        0 <= position < tables.tasks.len(),
    ensures
        tables.task_row(tables.tasks[position].id) == Some(tables.tasks[position]),
{
    let id = tables.tasks[position].id;
    assert forall|j: int| 0 <= j < position implies !crate::store::task_has_id(id)(
        #[trigger] tables.tasks[j],
    ) by {
        assert(tables.tasks[j].id != tables.tasks[position].id);
    }
    lemma_only_row_is_first(tables.tasks, crate::store::task_has_id(id), position);
}

/// Asking for a kind keeps well-formed tables well formed, and afterwards
/// both the name and the identifier of the kind lead to it.
pub proof fn lemma_kind_resolution(tables: crate::store::Tables, kind: crate::models::TaskKindView)
    requires
        tables.well_formed(),
        tables.kind_resolved(kind),
    ensures
        tables.with_kind(kind).well_formed(),
        tables.with_kind(kind).kind_named(kind.name) == Some(kind),
        tables.with_kind(kind).kind_with_id(kind.id) == Some(kind),
        tables.with_kind(kind).queued_tasks_assigned() == tables.queued_tasks_assigned(),
{
    let after = tables.with_kind(kind);
    lemma_lookup_none(tables.kinds, crate::store::kind_is_named(kind.name));
    lemma_lookup_none(tables.kinds, crate::store::kind_has_id(kind.id));
    if tables.kind_named(kind.name) is Some {
        let position = tables.kinds.index_of(kind);
        lemma_kind_lookups(tables, position);
    } else {
        lemma_lookup_after_push(tables.kinds, crate::store::kind_is_named(kind.name), kind);
        lemma_lookup_after_push(tables.kinds, crate::store::kind_has_id(kind.id), kind);
        assert forall|i: int, j: int| 0 <= i < j < after.kinds.len() implies after.kinds[i].id
            != after.kinds[j].id && after.kinds[i].name != after.kinds[j].name by {
            if j == tables.kinds.len() {
                assert(!crate::store::kind_has_id(kind.id)(tables.kinds[i]));
                assert(!crate::store::kind_is_named(kind.name)(tables.kinds[i]));
            } else {
                assert(tables.kinds[i].id != tables.kinds[j].id);
                assert(tables.kinds[i].name != tables.kinds[j].name);
            }
        }
        assert forall|i: int| 0 <= i < after.tasks.len() implies after.kind_with_id(
            (#[trigger] after.tasks[i]).kind_id,
        ) is Some by {
            lemma_lookup_after_push(
                tables.kinds,
                crate::store::kind_has_id(tables.tasks[i].kind_id),
                kind,
            );
        }
        assert forall|i: int, j: int|
            0 <= i < after.workers.len() && 0 <= j < after.workers[i].kinds.len() implies after.kind_with_id(
            #[trigger] after.workers[i].kinds[j],
        ) is Some by {
            lemma_lookup_after_push(
                tables.kinds,
                crate::store::kind_has_id(tables.workers[i].kinds[j]),
                kind,
            );
        }
    }
}

/// Asking twice for a kind of one name gives the same kind twice, and the
/// second time changes nothing.
pub proof fn lemma_kind_resolution_idempotent(
    tables: crate::store::Tables,
    first: crate::models::TaskKindView,
    second: crate::models::TaskKindView,
)
    requires
        tables.kind_resolved(first),
        first.name == second.name,
        tables.with_kind(first).kind_resolved(second),
    ensures
        second == first,
        tables.with_kind(first).with_kind(second) == tables.with_kind(first),
{
    lemma_lookup_after_push(tables.kinds, crate::store::kind_is_named(first.name), first);
}

/// Creating a task keeps well-formed tables well formed and keeps every queued
/// task assigned; afterwards the identifier of the task leads to its row.
pub proof fn lemma_task_creation(
    tables: crate::store::Tables,
    kind_id: Id,
    input_data: Option<Seq<char>>,
    task: crate::models::TaskInstanceView,
)
    requires
        tables.task_created(kind_id, input_data, task),
    ensures
        tables.well_formed() ==> tables.with_task(kind_id, task).well_formed(),
        tables.queued_tasks_assigned() ==> tables.with_task(kind_id, task).queued_tasks_assigned(),
        tables.with_task(kind_id, task).task_row(task.id) matches Some(row) && tables.with_task(
            kind_id,
            task,
        ).task_of(row, false) == task,
{
    let after = tables.with_task(kind_id, task);
    let row = after.tasks[tables.tasks.len() as int];
    lemma_lookup_none(tables.tasks, crate::store::task_has_id(task.id));
    lemma_lookup_after_push(tables.tasks, crate::store::task_has_id(task.id), row);
    assert(after.task_of(row, false) == task);
    if tables.well_formed() {
        assert forall|i: int, j: int| 0 <= i < j < after.tasks.len() implies after.tasks[i].id
            != after.tasks[j].id by {
            if j == tables.tasks.len() {
                assert(!crate::store::task_has_id(task.id)(tables.tasks[i]));
            } else {
                assert(tables.tasks[i].id != tables.tasks[j].id);
            }
        }
        assert forall|i: int| 0 <= i < after.tasks.len() implies after.kind_with_id(
            (#[trigger] after.tasks[i]).kind_id,
        ) is Some by {
            if i < tables.tasks.len() {
                assert(after.tasks[i] == tables.tasks[i]);
            }
        }
        assert forall|i: int| 0 <= i < after.results.len() implies (
        #[trigger] after.results[i]).well_formed() && after.task_row(after.results[i].task_id)
            is Some by {
            lemma_lookup_after_push(
                tables.tasks,
                crate::store::task_has_id(tables.results[i].task_id),
                row,
            );
        }
    }
    if tables.queued_tasks_assigned() {
        assert forall|i: int|
            0 <= i < after.tasks.len() && (#[trigger] after.tasks[i]).status
                is Queued implies after.tasks[i].assigned_to is Some by {
            if i < tables.tasks.len() {
                assert(after.tasks[i] == tables.tasks[i]);
            }
        }
    }
}

/// Changing the tasks of one identifier, in a way that keeps the identifier
/// and the kind, keeps well-formed tables well formed; afterwards the
/// identifier leads to the changed row, and every other task is as it was.
pub proof fn lemma_task_change(
    tables: crate::store::Tables,
    id: Id,
    change: spec_fn(crate::store::TaskRow) -> crate::store::TaskRow,
)
    requires
        forall|row: crate::store::TaskRow|
            (#[trigger] change(row)).id == row.id && change(row).kind_id == row.kind_id,
    ensures
        tables.well_formed() ==> tables.with_task_changed(id, change).well_formed(),
        tables.with_task_changed(id, change).task_row(id) == match tables.task_row(id) {
            Some(row) => Some(change(row)),
            None => None,
        },
        forall|other: Id|
            other != id ==> tables.with_task_changed(id, change).task_row(other) == tables.task_row(
                other,
            ),
        tables.with_task_changed(id, change).kinds == tables.kinds,
        tables.with_task_changed(id, change).results == tables.results,
        tables.with_task_changed(id, change).workers == tables.workers,
{
    let after = tables.with_task_changed(id, change);
    let each = |row: crate::store::TaskRow|
        if row.id == id {
            change(row)
        } else {
            row
        };
    assert(after.tasks == tables.tasks.map_values(each));
    assert forall|other: Id| true implies #[trigger] after.task_row(other) == match tables.task_row(
        other,
    ) {
        Some(row) => Some(each(row)),
        None => None,
    } by {
        assert forall|row: crate::store::TaskRow| #[trigger]
            crate::store::task_has_id(other)(each(row)) == crate::store::task_has_id(other)(
                row,
            ) by {}
        lemma_lookup_after_change(tables.tasks, crate::store::task_has_id(other), each);
    }
    lemma_lookup_none(tables.tasks, crate::store::task_has_id(id));
    assert forall|other: Id| other != id implies after.task_row(other) == tables.task_row(
        other,
    ) by {
        lemma_lookup_none(tables.tasks, crate::store::task_has_id(other));
        assert(after.task_row(other) == match tables.task_row(other) {
            Some(row) => Some(each(row)),
            None => None,
        });
    }
    assert(after.task_row(id) == match tables.task_row(id) {
        Some(row) => Some(each(row)),
        None => None,
    });
    if tables.well_formed() {
        assert forall|i: int, j: int| 0 <= i < j < after.tasks.len() implies after.tasks[i].id
            != after.tasks[j].id by {
            assert(tables.tasks[i].id != tables.tasks[j].id);
        }
        assert forall|i: int| 0 <= i < after.tasks.len() implies after.kind_with_id(
            (#[trigger] after.tasks[i]).kind_id,
        ) is Some by {
            assert(after.tasks[i].kind_id == tables.tasks[i].kind_id);
        }
        assert forall|i: int| 0 <= i < after.results.len() implies (
        #[trigger] after.results[i]).well_formed() && after.task_row(after.results[i].task_id)
            is Some by {
            assert(tables.results[i].well_formed());
            assert(after.task_row(tables.results[i].task_id) == match tables.task_row(
                tables.results[i].task_id,
            ) {
                Some(row) => Some(each(row)),
                None => None,
            });
        }
    }
}

/// Whether no row at which `found` holds has an instant after `now`.
pub open spec fn none_later<T>(
    rows: Seq<T>,
    found: spec_fn(T) -> bool,
    instant: spec_fn(T) -> crate::time_format::Timestamp,
    now: crate::time_format::Timestamp,
) -> bool {
    forall|j: int|
        0 <= j < rows.len() && found(#[trigger] rows[j]) ==> instant(rows[j]).unix_nanos
            <= now.unix_nanos
}

/// The latest row after one more row was inserted: the new row where `found`
/// holds of it and no earlier row is later than it, and the one that was the
/// latest before where `found` does not hold of the new row.
pub proof fn lemma_latest_after_push<T>(
    rows: Seq<T>,
    found: spec_fn(T) -> bool,
    instant: spec_fn(T) -> crate::time_format::Timestamp,
    row: T,
)
    ensures
        found(row) && none_later(rows, found, instant, instant(row)) ==> crate::store::latest_row(
            rows.push(row),
            found,
            instant,
        ) == Some(row),
        !found(row) ==> crate::store::latest_row(rows.push(row), found, instant)
            == crate::store::latest_row(rows, found, instant),
{
    let longer = rows.push(row);
    assert(longer[longer.len() - 1] == row);
    assert(longer.len() == rows.len() + 1);
    lemma_latest_position_prefix(rows, longer, found, instant, rows.len() as int);
    lemma_latest_position_bound(rows, found, instant, rows.len() as int);
    let earlier = crate::store::latest_position(rows, found, instant, rows.len() as int);
    if earlier >= 0 {
        assert(longer[earlier] == rows[earlier]);
    }
}

/// The latest position lies before its bound, and `found` holds at it.
proof fn lemma_latest_position_bound<T>(
    rows: Seq<T>,
    found: spec_fn(T) -> bool,
    instant: spec_fn(T) -> crate::time_format::Timestamp,
    upto: int,
)
    requires
        0 <= upto <= rows.len(),
    ensures
        -1 <= crate::store::latest_position(rows, found, instant, upto) < upto,
        crate::store::latest_position(rows, found, instant, upto) >= 0 ==> found(
            rows[crate::store::latest_position(rows, found, instant, upto)],
        ),
    decreases upto,
{
    if upto > 0 {
        lemma_latest_position_bound(rows, found, instant, upto - 1);
    }
}

/// The latest position before a bound depends only on the rows before the
/// bound.
proof fn lemma_latest_position_prefix<T>(
    rows: Seq<T>,
    longer: Seq<T>,
    found: spec_fn(T) -> bool,
    instant: spec_fn(T) -> crate::time_format::Timestamp,
    upto: int,
)
    requires
        0 <= upto <= rows.len() <= longer.len(),
        forall|j: int| 0 <= j < rows.len() ==> rows[j] == longer[j],
    ensures
        crate::store::latest_position(rows, found, instant, upto) == crate::store::latest_position(
            longer,
            found,
            instant,
            upto,
        ),
    decreases upto,
{
    if upto > 0 {
        lemma_latest_position_prefix(rows, longer, found, instant, upto - 1);
        lemma_latest_position_bound(rows, found, instant, upto - 1);
    }
}

/// Assigning a task keeps well-formed tables well formed and keeps every
/// queued task assigned; afterwards the task is queued and assigned to the
/// worker.
pub proof fn lemma_assignment(tables: crate::store::Tables, task_id: Id, worker_id: Id)
    ensures
        tables.well_formed() ==> tables.with_task_assigned(task_id, worker_id).well_formed(),
        tables.queued_tasks_assigned() ==> tables.with_task_assigned(
            task_id,
            worker_id,
        ).queued_tasks_assigned(),
        tables.task_row(task_id) matches Some(row) ==> tables.with_task_assigned(
            task_id,
            worker_id,
        ).task_row(task_id) == Some(
            crate::store::TaskRow {
                assigned_to: Some(worker_id),
                status: crate::status::TaskStatus::Queued,
                ..row
            },
        ),
{
    let change = |row: crate::store::TaskRow|
        crate::store::TaskRow {
            assigned_to: Some(worker_id),
            status: crate::status::TaskStatus::Queued,
            ..row
        };
    lemma_task_change(tables, task_id, change);
    let after = tables.with_task_assigned(task_id, worker_id);
    assert(after == tables.with_task_changed(task_id, change));
    if tables.queued_tasks_assigned() {
        assert forall|i: int|
            0 <= i < after.tasks.len() && (#[trigger] after.tasks[i]).status
                is Queued implies after.tasks[i].assigned_to is Some by {
            assert(tables.tasks[i].status is Queued ==> tables.tasks[i].assigned_to is Some);
        }
    }
}

/// Setting the status of a task keeps well-formed tables well formed. It
/// keeps every queued task assigned unless it marks an unassigned task
/// queued.
pub proof fn lemma_status_update(
    tables: crate::store::Tables,
    task_id: Id,
    status: crate::status::TaskStatus,
)
    ensures
        tables.well_formed() ==> tables.with_task_status(task_id, status).well_formed(),
        tables.queued_tasks_assigned() && !(status is Queued && tables.has_unassigned(task_id))
            ==> tables.with_task_status(task_id, status).queued_tasks_assigned(),
        tables.task_row(task_id) matches Some(row) ==> tables.with_task_status(
            task_id,
            status,
        ).task_row(task_id) == Some(crate::store::TaskRow { status, ..row }),
        tables.with_task_status(task_id, status).kinds == tables.kinds,
        tables.with_task_status(task_id, status).results == tables.results,
{
    let change = |row: crate::store::TaskRow| crate::store::TaskRow { status, ..row };
    lemma_task_change(tables, task_id, change);
    let after = tables.with_task_status(task_id, status);
    assert(after == tables.with_task_changed(task_id, change));
    if tables.queued_tasks_assigned() && !(status is Queued && tables.has_unassigned(task_id)) {
        assert forall|i: int|
            0 <= i < after.tasks.len() && (#[trigger] after.tasks[i]).status
                is Queued implies after.tasks[i].assigned_to is Some by {
            assert(tables.tasks[i].status is Queued ==> tables.tasks[i].assigned_to is Some);
        }
    }
}

/// Uploading a result for a task that exists keeps well-formed tables well
/// formed and keeps every queued task assigned. Afterwards the earlier results
/// are still there, and the task is completed or failed as the result says.
/// Unless an earlier result of the task carries a later instant, the result
/// is the most recent of its task, whatever was uploaded before, and is what
/// the task is read with.
pub proof fn lemma_upload(tables: crate::store::Tables, result: crate::models::TaskResultView)
    requires
        tables.task_row(result.task_id) is Some,
        result.well_formed(),
    ensures
        tables.well_formed() ==> tables.with_result(result).well_formed(),
        tables.queued_tasks_assigned() ==> tables.with_result(result).queued_tasks_assigned(),
        tables.with_result(result).results == tables.results.push(result),
        tables.with_result(result).task_row(result.task_id) matches Some(row) && row.status == (
        if result.error_data is Some {
            crate::status::TaskStatus::Failed
        } else {
            crate::status::TaskStatus::Completed
        }) && (none_later(
            tables.results,
            crate::store::result_is_for(result.task_id),
            crate::store::result_instant(),
            result.created_at,
        ) ==> tables.with_result(result).latest_result(result.task_id) == Some(result)
            && tables.with_result(result).task_of(row, true).result == Some(result)),
{
    let status = if result.error_data is Some {
        crate::status::TaskStatus::Failed
    } else {
        crate::status::TaskStatus::Completed
    };
    let marked = tables.with_task_status(result.task_id, status);
    let after = tables.with_result(result);
    lemma_status_update(tables, result.task_id, status);
    lemma_latest_after_push(
        tables.results,
        crate::store::result_is_for(result.task_id),
        crate::store::result_instant(),
        result,
    );
    assert(after.tasks == marked.tasks);
    assert(after.task_row(result.task_id) == marked.task_row(result.task_id));
    lemma_lookup_none(after.tasks, crate::store::task_has_id(result.task_id));
    if tables.well_formed() {
        assert forall|i: int| 0 <= i < after.results.len() implies (
        #[trigger] after.results[i]).well_formed() && after.task_row(after.results[i].task_id)
            is Some by {
            if i < tables.results.len() {
                assert(after.results[i] == marked.results[i]);
                assert(marked.task_row(marked.results[i].task_id) is Some);
            }
        }
        assert forall|i: int| 0 <= i < after.tasks.len() implies after.kind_with_id(
            (#[trigger] after.tasks[i]).kind_id,
        ) is Some by {
            assert(marked.kind_with_id(marked.tasks[i].kind_id) is Some);
        }
    }
    if tables.queued_tasks_assigned() {
        assert forall|i: int|
            0 <= i < after.tasks.len() && (#[trigger] after.tasks[i]).status
                is Queued implies after.tasks[i].assigned_to is Some by {
            assert(marked.tasks[i].status is Queued ==> marked.tasks[i].assigned_to is Some);
        }
    }
}

/// Whether `rows` is the beginning of `longer`.
pub open spec fn begins<T>(longer: Seq<T>, rows: Seq<T>) -> bool {
    rows.len() <= longer.len() && forall|j: int| 0 <= j < rows.len() ==> rows[j] == longer[j]
}

/// What a lookup finds in a table it still finds once rows were appended.
pub proof fn lemma_lookup_in_extension<T>(rows: Seq<T>, longer: Seq<T>, found: spec_fn(T) -> bool)
    requires
        begins(longer, rows),
        crate::store::first_row(rows, found) is Some,
    ensures
        crate::store::first_row(longer, found) == crate::store::first_row(rows, found),
{
    crate::store::lemma_first_position(rows, found, 0);
    let position = crate::store::first_position(rows, found, 0);
    assert(found(longer[position]));
    assert forall|j: int| 0 <= j < position implies !found(#[trigger] longer[j]) by {
        assert(longer[j] == rows[j]);
    }
    lemma_only_row_is_first(longer, found, position);
}

/// Inserting the kinds that are missing appends to the table of kinds, gives
/// no identifier twice, and leaves every given kind with a row.
pub proof fn lemma_kinds_with(tables: crate::store::Tables, kinds: Seq<crate::models::TaskKindView>)
    ensures
        begins(tables.kinds_with(kinds), tables.kinds),
        (forall|i: int, j: int|
            #![trigger tables.kinds[i], tables.kinds[j]]
            0 <= i < j < tables.kinds.len() ==> tables.kinds[i].id != tables.kinds[j].id) ==> (
        forall|i: int, j: int|
            #![trigger tables.kinds_with(kinds)[i], tables.kinds_with(kinds)[j]]
            0 <= i < j < tables.kinds_with(kinds).len() ==> tables.kinds_with(kinds)[i].id
                != tables.kinds_with(kinds)[j].id),
        forall|k: int|
            0 <= k < kinds.len() ==> crate::store::first_row(
                tables.kinds_with(kinds),
                crate::store::kind_has_id(#[trigger] kinds[k].id),
            ) is Some,
    decreases kinds.len(),
{
    if kinds.len() > 0 {
        let earlier = tables.kinds_with(kinds.drop_last());
        let kind = kinds.last();
        let after = tables.kinds_with(kinds);
        lemma_kinds_with(tables, kinds.drop_last());
        lemma_lookup_none(earlier, crate::store::kind_has_id(kind.id));
        crate::store::lemma_first_position(earlier, crate::store::kind_has_id(kind.id), 0);
        lemma_lookup_after_push(earlier, crate::store::kind_has_id(kind.id), kind);
        assert forall|k: int| 0 <= k < kinds.len() implies crate::store::first_row(
            after,
            crate::store::kind_has_id(#[trigger] kinds[k].id),
        ) is Some by {
            if k < kinds.len() - 1 {
                assert(kinds.drop_last()[k] == kinds[k]);
                lemma_lookup_after_push(earlier, crate::store::kind_has_id(kinds[k].id), kind);
            }
        }
        if after != earlier {
            assert forall|i: int, j: int|
                0 <= i < j < after.len() && (forall|a: int, b: int|
                    #![trigger tables.kinds[a], tables.kinds[b]]
                    0 <= a < b < tables.kinds.len() ==> tables.kinds[a].id
                        != tables.kinds[b].id) implies after[i].id != after[j].id by {
                if j == earlier.len() {
                    assert(!crate::store::kind_has_id(kind.id)(earlier[i]));
                } else {
                    assert(earlier[i].id != earlier[j].id);
                }
            }
        }
    }
}

/// After a registration the worker has a row that holds the new name and
/// exactly the kinds that were given, whatever kinds the worker had before; it
/// keeps the instant of its first registration and is active, whatever it was
/// before.
pub proof fn lemma_registered_row(
    tables: crate::store::Tables,
    id: Id,
    name: Seq<char>,
    kinds: Seq<crate::models::TaskKindView>,
    now: crate::time_format::Timestamp,
)
    ensures
        tables.with_worker_registered(id, name, kinds, now).worker_row(id) matches Some(row) && {
            &&& row.id == id
            &&& row.name == name
            &&& row.kinds == crate::store::kind_ids(kinds)
            &&& row.registered_at == match tables.worker_row(id) {
                Some(known) => known.registered_at,
                None => now,
            }
            &&& row.active
        },
{
    let after = tables.with_worker_registered(id, name, kinds, now);
    let found = crate::store::worker_has_id(id);
    crate::store::lemma_first_position(tables.workers, found, 0);
    crate::store::lemma_first_position(after.workers, found, 0);
    let position = crate::store::first_position(tables.workers, found, 0);
    if position < tables.workers.len() {
        assert(found(after.workers[position]));
        assert forall|j: int| 0 <= j < position implies !found(#[trigger] after.workers[j]) by {
            assert(!found(tables.workers[j]));
        }
    } else {
        assert(found(after.workers[tables.workers.len() as int]));
        assert forall|j: int| 0 <= j < tables.workers.len() implies !found(
            #[trigger] after.workers[j],
        ) by {
            assert(!found(tables.workers[j]));
        }
    }
}

/// Registering a worker with kinds that can be linked keeps well-formed
/// tables well formed, and touches no task and no result.
pub proof fn lemma_registration(
    tables: crate::store::Tables,
    id: Id,
    name: Seq<char>,
    kinds: Seq<crate::models::TaskKindView>,
    now: crate::time_format::Timestamp,
)
    requires
        tables.well_formed(),
        tables.kinds_acceptable(kinds),
    ensures
        tables.with_worker_registered(id, name, kinds, now).well_formed(),
        tables.with_worker_registered(id, name, kinds, now).tasks == tables.tasks,
        tables.with_worker_registered(id, name, kinds, now).results == tables.results,
{
    let after = tables.with_worker_registered(id, name, kinds, now);
    let found = crate::store::worker_has_id(id);
    let linked = crate::store::kind_ids(kinds);
    lemma_kinds_with(tables, kinds);
    lemma_lookup_none(tables.workers, found);
    crate::store::lemma_first_position(tables.workers, found, 0);
    assert(after.kinds == tables.kinds_with(kinds));
    assert forall|i: int, j: int| 0 <= i < j < after.workers.len() implies after.workers[i].id
        != after.workers[j].id by {
        if j < tables.workers.len() {
            assert(tables.workers[i].id != tables.workers[j].id);
        } else {
            assert(!found(tables.workers[i]));
        }
    }
    assert forall|i: int| 0 <= i < after.tasks.len() implies after.kind_with_id(
        (#[trigger] after.tasks[i]).kind_id,
    ) is Some by {
        lemma_lookup_in_extension(
            tables.kinds,
            after.kinds,
            crate::store::kind_has_id(tables.tasks[i].kind_id),
        );
    }
    assert forall|i: int, j: int|
        0 <= i < after.workers.len() && 0 <= j < after.workers[i].kinds.len() implies after.kind_with_id(
        #[trigger] after.workers[i].kinds[j],
    ) is Some by {
        if after.workers[i].id == id {
            assert(after.workers[i].kinds == linked);
            assert(linked[j] == kinds[j].id);
        } else {
            assert(after.workers[i] == tables.workers[i]);
            lemma_lookup_in_extension(
                tables.kinds,
                after.kinds,
                crate::store::kind_has_id(tables.workers[i].kinds[j]),
            );
        }
    }
    assert forall|i: int| 0 <= i < after.results.len() implies (
    #[trigger] after.results[i]).well_formed() && after.task_row(after.results[i].task_id)
        is Some by {
        assert(tables.results[i].well_formed());
    }
}

/// Setting the activity of a worker keeps well-formed tables well formed, and
/// touches no task, no kind and no result.
pub proof fn lemma_activity(tables: crate::store::Tables, id: Id, active: bool)
    requires
        tables.well_formed(),
    ensures
        tables.with_worker_changed(
            id,
            |row: crate::store::WorkerRow| crate::store::WorkerRow { active, ..row },
        ).well_formed(),
        tables.with_worker_changed(
            id,
            |row: crate::store::WorkerRow| crate::store::WorkerRow { active, ..row },
        ).worker_row(id) == match tables.worker_row(id) {
            Some(row) => Some(crate::store::WorkerRow { active, ..row }),
            None => None,
        },
{
    let change = |row: crate::store::WorkerRow| crate::store::WorkerRow { active, ..row };
    let each = |row: crate::store::WorkerRow|
        if row.id == id {
            change(row)
        } else {
            row
        };
    let after = tables.with_worker_changed(id, change);
    assert(after.workers == tables.workers.map_values(each));
    assert forall|row: crate::store::WorkerRow| #[trigger]
        crate::store::worker_has_id(id)(each(row)) == crate::store::worker_has_id(id)(row) by {}
    lemma_lookup_after_change(tables.workers, crate::store::worker_has_id(id), each);
    lemma_lookup_none(tables.workers, crate::store::worker_has_id(id));
    assert forall|i: int, j: int| 0 <= i < j < after.workers.len() implies after.workers[i].id
        != after.workers[j].id by {
        assert(tables.workers[i].id != tables.workers[j].id);
    }
    assert forall|i: int, j: int|
        0 <= i < after.workers.len() && 0 <= j < after.workers[i].kinds.len() implies after.kind_with_id(
        #[trigger] after.workers[i].kinds[j],
    ) is Some by {
        assert(after.workers[i].kinds == tables.workers[i].kinds);
    }
    assert forall|i: int| 0 <= i < after.results.len() implies (
    #[trigger] after.results[i]).well_formed() && after.task_row(after.results[i].task_id)
        is Some by {
        assert(tables.results[i].well_formed());
    }
}

} // verus!
