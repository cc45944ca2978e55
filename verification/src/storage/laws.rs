//! What holds of the store whatever is done to it.

use crate::error::{ErrorView, InvalidRecord};
use crate::schema::{to_local, ToLocalReason};
use crate::storage::model::{
    db_wf, has_local, has_mirror, lemma_inbound_wf, lemma_local_pos, lemma_mark_overridden_wf,
    lemma_written_wf, local_pos, local_visible, mirror_pos, mirror_visible, overlay_base, put_local,
    spec_create, spec_delete, spec_inbound, spec_update, visible, visible_clock, visible_count,
    written, DbView, LocalRowView, MirrorRowView, RecordView,
};
use crate::vclock::{clock_compare, lemma_apply_advances, VClockOrdering};
use vstd::prelude::*;

verus! {

/// One operation on the store with its arguments: a write of the
/// application, or an inbound change of the sync step.
pub enum Operation {
    Create { native: RecordView, now: i64, fresh: Seq<char> },
    Update { native: RecordView, now: i64 },
    Delete { guid: Seq<char>, now: i64 },
    Inbound { row: MirrorRowView },
}

/// The store after one operation.
pub open spec fn step(db: DbView, op: Operation) -> DbView {
    match op {
        Operation::Create { native, now, fresh } => spec_create(db, native, now, fresh).1,
        Operation::Update { native, now } => spec_update(db, native, now).1,
        Operation::Delete { guid, now } => spec_delete(db, guid, now).1,
        Operation::Inbound { row } => spec_inbound(db, row),
    }
}

/// The operation wrote: it stored a record, replaced one or deleted one.
/// An inbound change is no write of this client.
pub open spec fn wrote(db: DbView, op: Operation) -> bool {
    match op {
        Operation::Create { native, now, fresh } => spec_create(db, native, now, fresh).0 is Ok,
        Operation::Update { native, now } => spec_update(db, native, now).0 is Ok,
        Operation::Delete { guid, now } => spec_delete(db, guid, now).0 == Ok::<bool, ErrorView>(true),
        Operation::Inbound { row } => false,
    }
}

/// The record that an operation is about, where its arguments name one.
pub open spec fn target(db: DbView, op: Operation) -> Option<Seq<char>> {
    match op {
        Operation::Create { native, now, fresh } => match to_local(db.info, native, ToLocalReason::Creation, fresh) {
            Ok((id, _)) => Some(id),
            Err(_) => None,
        },
        Operation::Update { native, now } => match to_local(db.info, native, ToLocalReason::Update, Seq::empty()) {
            Ok((id, _)) => Some(id),
            Err(_) => None,
        },
        Operation::Delete { guid, now } => Some(guid),
        Operation::Inbound { row } => Some(row.guid),
    }
}

/// The store after a sequence of operations.
pub open spec fn run(db: DbView, ops: Seq<Operation>) -> DbView
    decreases ops.len(),
{
    if ops.len() == 0 {
        db
    } else {
        step(run(db, ops.drop_last()), ops.last())
    }
}

/// How many operations of a sequence wrote.
pub open spec fn writes(db: DbView, ops: Seq<Operation>) -> nat
    decreases ops.len(),
{
    if ops.len() == 0 {
        0
    } else {
        let before = run(db, ops.drop_last());
        writes(db, ops.drop_last()) + if wrote(before, ops.last()) { 1nat } else { 0nat }
    }
}

/// At most one row is visible for any id, counting both tables.
pub proof fn lemma_at_most_one_visible(db: DbView, guid: Seq<char>)
    requires
        db_wf(db),
    ensures
        visible_count(db, guid) <= 1,
        !(local_visible(db, guid) && mirror_visible(db, guid)),
{
    if has_local(db.local, guid) && has_mirror(db.mirror, guid) {
        let i = local_pos(db.local, guid);
        let j = mirror_pos(db.mirror, guid);
        assert(db.local[i].guid == db.mirror[j].guid);
    }
}

/// Where an id has an overlay row, its mirror row, if any, is overridden.
pub proof fn lemma_overlay_overrides_mirror(db: DbView, guid: Seq<char>)
    requires
        db_wf(db),
        has_local(db.local, guid),
        has_mirror(db.mirror, guid),
    ensures
        db.mirror[mirror_pos(db.mirror, guid)].is_overridden,
{
    let i = local_pos(db.local, guid);
    let j = mirror_pos(db.mirror, guid);
    assert(db.local[i].guid == db.mirror[j].guid);
}

/// Every operation keeps the store well formed, so the two invariants
/// above hold after any sequence of operations.
pub proof fn lemma_step_keeps_wf(db: DbView, op: Operation)
    requires
        db_wf(db),
    ensures
        db_wf(step(db, op)),
{
    let after = step(db, op);
    if after != db {
        match op {
            Operation::Create { native, now, fresh } => {
                let row = choose|row: LocalRowView| after == written(db, row);
                lemma_written_wf(db, row);
            },
            Operation::Update { native, now } => {
                let row = choose|row: LocalRowView| after == written(db, row);
                lemma_written_wf(db, row);
            },
            Operation::Delete { guid, now } => {
                let row = choose|row: LocalRowView| after == written(db, row);
                lemma_written_wf(db, row);
            },
            Operation::Inbound { row } => {
                lemma_inbound_wf(db, row);
            },
        }
    }
}

/// A sequence of operations keeps the store well formed.
pub proof fn lemma_run_keeps_wf(db: DbView, ops: Seq<Operation>)
    requires
        db_wf(db),
    ensures
        db_wf(run(db, ops)),
    decreases ops.len(),
{
    if ops.len() > 0 {
        lemma_run_keeps_wf(db, ops.drop_last());
        lemma_step_keeps_wf(run(db, ops.drop_last()), ops.last());
    }
}

/// An operation that wrote used up exactly one counter value. One that did
/// not left counter and overlay as they were, and the whole store unless
/// it was an inbound change.
pub proof fn lemma_step_counter(db: DbView, op: Operation)
    ensures
        wrote(db, op) ==> step(db, op).change_counter == db.change_counter + 1,
        !wrote(db, op) ==> step(db, op).change_counter == db.change_counter && step(db, op).local == db.local,
        !wrote(db, op) && !(op is Inbound) ==> step(db, op) == db,
{
}

/// After any sequence of operations the change counter has grown by the
/// number of operations that wrote, so it is at least that number.
pub proof fn lemma_counter_counts_writes(db: DbView, ops: Seq<Operation>)
    requires
        db_wf(db),
    ensures
        run(db, ops).change_counter == db.change_counter + writes(db, ops),
        run(db, ops).change_counter >= writes(db, ops),
    decreases ops.len(),
{
    if ops.len() > 0 {
        lemma_counter_counts_writes(db, ops.drop_last());
        lemma_step_counter(run(db, ops.drop_last()), ops.last());
    }
}

/// The row that a write leaves in the overlay is the row that was written.
pub proof fn lemma_written_row(db: DbView, row: LocalRowView)
    requires
        db_wf(db),
    ensures
        has_local(written(db, row).local, row.guid),
        written(db, row).local[local_pos(written(db, row).local, row.guid)] == row,
        crate::storage::model::unique_local(written(db, row).local),
{
    let after = written(db, row);
    lemma_mark_overridden_wf(db, row.guid);
    let l = put_local(db.local, row);
    assert(crate::storage::model::unique_local(l)) by {
        if has_local(db.local, row.guid) {
            assert forall|i: int, j: int| 0 <= i < j < l.len() implies (#[trigger] l[i]).guid != (#[trigger] l[j]).guid by {
                assert(l[i].guid == db.local[i].guid);
                assert(l[j].guid == db.local[j].guid);
            }
        } else {
            assert forall|i: int, j: int| 0 <= i < j < l.len() implies (#[trigger] l[i]).guid != (#[trigger] l[j]).guid by {
                assert(l[i] == db.local[i]);
                if j < db.local.len() {
                    assert(l[j] == db.local[j]);
                }
            }
        }
    }
    let at = if has_local(db.local, row.guid) { local_pos(db.local, row.guid) } else { db.local.len() as int };
    assert(l[at] == row);
    lemma_local_pos(l, at);
}

/// A write leaves the overlay rows of every other record as they were.
pub proof fn lemma_written_keeps_others(db: DbView, row: LocalRowView, other: Seq<char>)
    requires
        db_wf(db),
        other != row.guid,
        has_local(db.local, other),
    ensures
        has_local(written(db, row).local, other),
        written(db, row).local[local_pos(written(db, row).local, other)] == db.local[local_pos(db.local, other)],
{
    lemma_written_row(db, row);
    let l = put_local(db.local, row);
    let k = local_pos(db.local, other);
    assert(l[k] == db.local[k]);
    lemma_local_pos(l, k);
}

/// A second write to a record moves its clock strictly forward: an update
/// or a delete that succeeds leaves the overlay row with a clock that the
/// clock it started from is less than.
pub proof fn lemma_write_advances_clock(db: DbView, op: Operation)
    requires
        db_wf(db),
        wrote(db, op),
        !(op is Create),
    ensures
        target(db, op) matches Some(guid) && has_local(step(db, op).local, guid) && ({
            let before = if op is Update {
                overlay_base(db, guid)->Some_0.vclock
            } else {
                visible_clock(db, guid)->Some_0
            };
            let after = step(db, op).local[local_pos(step(db, op).local, guid)].vclock;
            clock_compare(before, after) == VClockOrdering::Less
        }),
{
    let guid = target(db, op)->Some_0;
    let after = step(db, op);
    let row = choose|row: LocalRowView| after == written(db, row) && row.guid == guid;
    lemma_written_row(db, row);
    let before = if op is Update { overlay_base(db, guid)->Some_0.vclock } else { visible_clock(db, guid)->Some_0 };
    lemma_apply_advances(before, db.client_id, (db.change_counter + 1) as nat);
}

/// Two successive writes by this client to one record are ordered: with a
/// record created or updated by `first`, and then updated or deleted by
/// `second`, the clock that the first write left is less than the clock
/// that the second leaves.
pub proof fn lemma_successive_writes_ordered(db: DbView, first: Operation, second: Operation)
    requires
        db_wf(db),
        wrote(db, first),
        !(first is Delete),
        wrote(step(db, first), second),
        !(second is Create),
        target(db, first) == target(step(db, first), second),
    ensures
        target(db, first) matches Some(guid) && has_local(step(db, first).local, guid) && has_local(
            step(step(db, first), second).local,
            guid,
        ) && ({
            let mid = step(db, first);
            let end = step(mid, second);
            clock_compare(mid.local[local_pos(mid.local, guid)].vclock, end.local[local_pos(end.local, guid)].vclock)
                == VClockOrdering::Less
        }),
{
    let guid = target(db, first)->Some_0;
    let mid = step(db, first);
    let row = choose|row: LocalRowView| mid == written(db, row) && row.guid == guid && !row.is_deleted;
    lemma_written_row(db, row);
    lemma_step_keeps_wf(db, first);
    lemma_write_advances_clock(mid, second);
    assert(local_visible(mid, guid));
}

/// An operation on one record leaves the overlay rows of every other
/// record as they were.
pub proof fn lemma_other_rows_kept(db: DbView, op: Operation, other: Seq<char>)
    requires
        db_wf(db),
        has_local(db.local, other),
        target(db, op) != Some(other),
    ensures
        has_local(step(db, op).local, other),
        step(db, op).local[local_pos(step(db, op).local, other)] == db.local[local_pos(db.local, other)],
{
    let after = step(db, op);
    if after.local != db.local {
        let guid = target(db, op)->Some_0;
        let row = choose|row: LocalRowView| after == written(db, row) && row.guid == guid;
        lemma_written_keeps_others(db, row, other);
    }
}

/// What was created or updated is what is read: after a create or an
/// update that succeeds, the record that is visible for its id is the
/// local form of the record that was written, and nothing else is visible
/// for the id.
pub proof fn lemma_written_record_is_visible(db: DbView, op: Operation)
    requires
        db_wf(db),
        wrote(db, op),
        op is Create || op is Update,
    ensures
        target(db, op) matches Some(guid) && visible(step(db, op), guid) && visible_count(step(db, op), guid) == 1
            && crate::storage::model::visible_record(step(db, op), guid) == Some(
            match op {
                Operation::Create { native, now, fresh } => to_local(
                    db.info,
                    native,
                    ToLocalReason::Creation,
                    fresh,
                )->Ok_0.1,
                Operation::Update { native, now } => to_local(
                    db.info,
                    native,
                    ToLocalReason::Update,
                    Seq::empty(),
                )->Ok_0.1,
                _ => Seq::empty(),
            },
        ),
{
    let guid = target(db, op)->Some_0;
    let after = step(db, op);
    let row = choose|row: LocalRowView| after == written(db, row) && row.guid == guid && !row.is_deleted;
    lemma_written_row(db, row);
    lemma_written_wf(db, row);
    lemma_at_most_one_visible(after, guid);
}

/// Deleting an id for which nothing is visible answers `false` and
/// changes nothing: no row, and not the counter.
pub proof fn lemma_delete_missing(db: DbView, guid: Seq<char>, now: i64)
    requires
        !visible(db, guid),
    ensures
        spec_delete(db, guid, now) == (Ok::<bool, ErrorView>(false), db),
{
}

/// A tombstone keeps its id taken: creating a record under the id of a
/// tombstoned overlay row fails, and changes nothing.
pub proof fn lemma_create_over_tombstone(db: DbView, native: RecordView, now: i64, fresh: Seq<char>)
    requires
        to_local(db.info, native, ToLocalReason::Creation, fresh) is Ok,
        ({
            let id = to_local(db.info, native, ToLocalReason::Creation, fresh)->Ok_0.0;
            has_local(db.local, id) && db.local[local_pos(db.local, id)].is_deleted
        }),
    ensures
        spec_create(db, native, now, fresh) == (
            Err::<Seq<char>, ErrorView>(ErrorView::InvalidRecord(InvalidRecord::IdNotUnique)),
            db,
        ),
{
}

/// A delete that succeeds leaves a tombstone: the record is no longer
/// visible, and its overlay row is deleted, empty and marked changed.
pub proof fn lemma_delete_leaves_tombstone(db: DbView, guid: Seq<char>, now: i64)
    requires
        db_wf(db),
        spec_delete(db, guid, now).0 == Ok::<bool, ErrorView>(true),
    ensures
        !visible(spec_delete(db, guid, now).1, guid),
        has_local(spec_delete(db, guid, now).1.local, guid),
        ({
            let after = spec_delete(db, guid, now).1;
            let row = after.local[local_pos(after.local, guid)];
            row.is_deleted && row.record.len() == 0 && row.sync_status == crate::storage::model::SyncStatus::Changed
        }),
{
    let after = spec_delete(db, guid, now).1;
    let row = choose|row: LocalRowView| after == written(db, row) && row.guid == guid && row.is_deleted;
    lemma_written_row(db, row);
    lemma_written_wf(db, row);
    lemma_mark_overridden_wf(db, guid);
    if has_mirror(after.mirror, guid) {
        lemma_overlay_overrides_mirror(after, guid);
    }
}

} // verus!
