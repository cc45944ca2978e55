//! The store as mathematics: two tables of rows and a change counter, what
//! is visible in them, and what each operation makes of them.

use crate::error::{ErrorView, InvalidRecord};
use crate::json::JsonView;
use crate::schema::{same_projection, to_local, InfoView, SchemaVersion, ToLocalReason};
use crate::vclock::{clock_single, counter_in};
use vstd::prelude::*;

verus! {

/// What the sync step owes the server for an overlay row.
#[derive(Debug, Clone, Copy, PartialEq, Eq, Structural)]
pub enum SyncStatus {
    Synced,
    Changed,
    New,
}

impl SyncStatus {
    /// The number that stands for the status in a stored row.
    pub open spec fn rank(self) -> int {
        match self {
            SyncStatus::Synced => 0,
            SyncStatus::Changed => 1,
            SyncStatus::New => 2,
        }
    }

    /// The status of an overlay row after one more local change.
    pub open spec fn changed(self) -> SyncStatus {
        if self.rank() >= 1 {
            self
        } else {
            SyncStatus::Changed
        }
    }
}

/// A record in its local form: named values.
pub type RecordView = Seq<(Seq<char>, JsonView)>;

/// A row of the local overlay.
pub struct LocalRowView {
    pub guid: Seq<char>,
    pub record: RecordView,
    pub vclock: Map<Seq<char>, nat>,
    pub last_writer_id: Seq<char>,
    pub local_modified_ms: i64,
    pub is_deleted: bool,
    pub sync_status: SyncStatus,
    pub schema_version: SchemaVersion,
}

/// A row of the mirror.
pub struct MirrorRowView {
    pub guid: Seq<char>,
    pub record: RecordView,
    pub vclock: Map<Seq<char>, nat>,
    pub last_writer_id: Seq<char>,
    pub server_modified_ms: i64,
    pub is_overridden: bool,
    pub ttl: Option<u32>,
    pub sortindex: Option<i32>,
}

/// The state of an open store.
pub struct DbView {
    pub local: Seq<LocalRowView>,
    pub mirror: Seq<MirrorRowView>,
    pub change_counter: int,
    pub client_id: Seq<char>,
    pub info: InfoView,
}

/// The overlay has a row for `guid`.
pub open spec fn has_local(rows: Seq<LocalRowView>, guid: Seq<char>) -> bool {
    exists|i: int| 0 <= i < rows.len() && (#[trigger] rows[i]).guid == guid
}

/// The place of the overlay row for `guid`.
pub open spec fn local_pos(rows: Seq<LocalRowView>, guid: Seq<char>) -> int {
    choose|i: int| 0 <= i < rows.len() && (#[trigger] rows[i]).guid == guid
}

/// The mirror has a row for `guid`.
pub open spec fn has_mirror(rows: Seq<MirrorRowView>, guid: Seq<char>) -> bool {
    exists|j: int| 0 <= j < rows.len() && (#[trigger] rows[j]).guid == guid
}

/// The place of the mirror row for `guid`.
pub open spec fn mirror_pos(rows: Seq<MirrorRowView>, guid: Seq<char>) -> int {
    choose|j: int| 0 <= j < rows.len() && (#[trigger] rows[j]).guid == guid
}

/// No two overlay rows share an id.
pub open spec fn unique_local(rows: Seq<LocalRowView>) -> bool {
    forall|i: int, j: int| 0 <= i < j < rows.len() ==> (#[trigger] rows[i]).guid != (#[trigger] rows[j]).guid
}

/// No two mirror rows share an id.
pub open spec fn unique_mirror(rows: Seq<MirrorRowView>) -> bool {
    forall|i: int, j: int| 0 <= i < j < rows.len() ==> (#[trigger] rows[i]).guid != (#[trigger] rows[j]).guid
}

/// Every mirror row whose id has an overlay row is marked overridden.
pub open spec fn overrides_hold(local: Seq<LocalRowView>, mirror: Seq<MirrorRowView>) -> bool {
    forall|i: int, j: int|
        0 <= i < local.len() && 0 <= j < mirror.len() && (#[trigger] local[i]).guid == (#[trigger] mirror[j]).guid
            ==> mirror[j].is_overridden
}

/// What holds of every open store: ids are unique in each table, an
/// overlay row overrides its mirror row, and the change counter is a
/// non-negative 64-bit value.
pub open spec fn db_wf(db: DbView) -> bool {
    &&& unique_local(db.local)
    &&& unique_mirror(db.mirror)
    &&& overrides_hold(db.local, db.mirror)
    &&& 0 <= db.change_counter <= i64::MAX
}

/// The overlay row for `guid` is there and is no tombstone.
pub open spec fn local_visible(db: DbView, guid: Seq<char>) -> bool {
    has_local(db.local, guid) && !db.local[local_pos(db.local, guid)].is_deleted
}

/// The mirror row for `guid` is there and is not overridden.
pub open spec fn mirror_visible(db: DbView, guid: Seq<char>) -> bool {
    has_mirror(db.mirror, guid) && !db.mirror[mirror_pos(db.mirror, guid)].is_overridden
}

/// A record for `guid` can be seen.
pub open spec fn visible(db: DbView, guid: Seq<char>) -> bool {
    local_visible(db, guid) || mirror_visible(db, guid)
}

/// How many rows for `guid` can be seen, counting both tables.
pub open spec fn visible_count(db: DbView, guid: Seq<char>) -> nat {
    let in_local: nat = if local_visible(db, guid) { 1 } else { 0 };
    let in_mirror: nat = if mirror_visible(db, guid) { 1 } else { 0 };
    in_local + in_mirror
}

/// The record that can be seen for `guid`: the overlay's if it has a live
/// one, else the mirror's if that is not overridden.
pub open spec fn visible_record(db: DbView, guid: Seq<char>) -> Option<RecordView> {
    if local_visible(db, guid) {
        Some(db.local[local_pos(db.local, guid)].record)
    } else if mirror_visible(db, guid) {
        Some(db.mirror[mirror_pos(db.mirror, guid)].record)
    } else {
        None
    }
}

/// The clock of the record that can be seen for `guid`.
pub open spec fn visible_clock(db: DbView, guid: Seq<char>) -> Option<Map<Seq<char>, nat>> {
    if local_visible(db, guid) {
        Some(db.local[local_pos(db.local, guid)].vclock)
    } else if mirror_visible(db, guid) {
        Some(db.mirror[mirror_pos(db.mirror, guid)].vclock)
    } else {
        None
    }
}

/// The id is taken: some row of either table has it, a tombstone too.
pub open spec fn id_taken(db: DbView, guid: Seq<char>) -> bool {
    has_local(db.local, guid) || has_mirror(db.mirror, guid)
}

/// Some visible record other than `guid`'s agrees with `rec` on every
/// deduplication field. Without deduplication fields there is no duplicate.
pub open spec fn dupe_exists(db: DbView, guid: Seq<char>, rec: RecordView) -> bool {
    db.info.dedupe_on.len() > 0 && (local_dupe(db, guid, rec, db.local.len() as int) || mirror_dupe(
        db,
        guid,
        rec,
        db.mirror.len() as int,
    ))
}

/// A live overlay row before place `n` duplicates `rec`.
pub open spec fn local_dupe(db: DbView, guid: Seq<char>, rec: RecordView, n: int) -> bool {
    exists|i: int|
        0 <= i < n && i < db.local.len() && !(#[trigger] db.local[i]).is_deleted && db.local[i].guid != guid
            && same_projection(db.local[i].record, rec, db.info.dedupe_on)
}

/// A mirror row before place `n` that is not overridden duplicates `rec`.
pub open spec fn mirror_dupe(db: DbView, guid: Seq<char>, rec: RecordView, n: int) -> bool {
    exists|j: int|
        0 <= j < n && j < db.mirror.len() && !(#[trigger] db.mirror[j]).is_overridden && db.mirror[j].guid
            != guid && same_projection(db.mirror[j].record, rec, db.info.dedupe_on)
}

/// The mirror with the row for `guid`, if it has one, marked overridden.
pub open spec fn mark_overridden(mirror: Seq<MirrorRowView>, guid: Seq<char>) -> Seq<MirrorRowView> {
    if has_mirror(mirror, guid) {
        let j = mirror_pos(mirror, guid);
        mirror.update(j, MirrorRowView { is_overridden: true, ..mirror[j] })
    } else {
        mirror
    }
}

/// The overlay with `row` in the place of the row with its id, or at the
/// end where the overlay has none.
pub open spec fn put_local(local: Seq<LocalRowView>, row: LocalRowView) -> Seq<LocalRowView> {
    if has_local(local, row.guid) {
        local.update(local_pos(local, row.guid), row)
    } else {
        local.push(row)
    }
}

/// The store after a write of `row` that used up one counter value.
pub open spec fn written(db: DbView, row: LocalRowView) -> DbView {
    DbView {
        local: put_local(db.local, row),
        mirror: mark_overridden(db.mirror, row.guid),
        change_counter: db.change_counter + 1,
        ..db
    }
}

/// What `create` returns and leaves behind.
///
/// The record is translated, which may fail on the schema; its id must be
/// free in both tables and no visible record may duplicate it; the counter
/// must have room. Then the overlay gains a new row whose clock has the one
/// entry of this client at the new counter value.
pub open spec fn spec_create(db: DbView, native: RecordView, now: i64, fresh: Seq<char>) -> (
    Result<Seq<char>, ErrorView>,
    DbView,
) {
    match to_local(db.info, native, ToLocalReason::Creation, fresh) {
        Err(e) => (Err(e), db),
        Ok((id, rec)) => if id_taken(db, id) {
            (Err(ErrorView::InvalidRecord(InvalidRecord::IdNotUnique)), db)
        } else if dupe_exists(db, id, rec) {
            (Err(ErrorView::InvalidRecord(InvalidRecord::Duplicate)), db)
        } else if db.change_counter >= i64::MAX {
            (Err(ErrorView::DbCorruption), db)
        } else {
            (
                Ok(id),
                written(
                    db,
                    LocalRowView {
                        guid: id,
                        record: rec,
                        vclock: clock_single(db.client_id, (db.change_counter + 1) as nat),
                        last_writer_id: db.client_id,
                        local_modified_ms: now,
                        is_deleted: false,
                        sync_status: SyncStatus::New,
                        schema_version: db.info.version,
                    },
                ),
            )
        },
    }
}

/// The overlay row that copies a mirror row as it is: not deleted, synced,
/// never modified locally, under the store's schema version.
pub open spec fn mirror_copy(row: MirrorRowView, version: SchemaVersion) -> LocalRowView {
    LocalRowView {
        guid: row.guid,
        record: row.record,
        vclock: row.vclock,
        last_writer_id: row.last_writer_id,
        local_modified_ms: 0,
        is_deleted: false,
        sync_status: SyncStatus::Synced,
        schema_version: version,
    }
}

/// The overlay row that an update of `guid` starts from: the overlay's own
/// row, or a copy of the mirror's where the overlay has none; nothing
/// where neither table has a row.
pub open spec fn overlay_base(db: DbView, guid: Seq<char>) -> Option<LocalRowView> {
    if has_local(db.local, guid) {
        Some(db.local[local_pos(db.local, guid)])
    } else if has_mirror(db.mirror, guid) {
        Some(mirror_copy(db.mirror[mirror_pos(db.mirror, guid)], db.info.version))
    } else {
        None
    }
}

/// What `update_record` returns and leaves behind.
///
/// The record is translated and must bring its id; no other visible record
/// may duplicate it; a row for the id must exist in one of the tables, and
/// the overlay row must be no tombstone; the counter must have room and
/// must lie above what the row's clock holds for this client. Then the
/// overlay row is replaced, or made, with the clock moved on, and the
/// mirror row is overridden.
pub open spec fn spec_update(db: DbView, native: RecordView, now: i64) -> (Result<(), ErrorView>, DbView) {
    match to_local(db.info, native, ToLocalReason::Update, Seq::empty()) {
        Err(e) => (Err(e), db),
        Ok((id, rec)) => if dupe_exists(db, id, rec) {
            (Err(ErrorView::InvalidRecord(InvalidRecord::Duplicate)), db)
        } else {
            match overlay_base(db, id) {
                None => (Err(ErrorView::NoSuchRecord(id)), db),
                Some(base) => if base.is_deleted {
                    (Err(ErrorView::StorageFailure), db)
                } else if db.change_counter >= i64::MAX {
                    (Err(ErrorView::DbCorruption), db)
                } else if db.change_counter + 1 <= counter_in(base.vclock, db.client_id) {
                    (Err(ErrorView::CausalityViolation), db)
                } else {
                    (
                        Ok(()),
                        written(
                            db,
                            LocalRowView {
                                guid: id,
                                record: rec,
                                vclock: base.vclock.insert(db.client_id, (db.change_counter + 1) as nat),
                                last_writer_id: db.client_id,
                                local_modified_ms: now,
                                is_deleted: false,
                                sync_status: base.sync_status.changed(),
                                schema_version: db.info.version,
                            },
                        ),
                    )
                },
            }
        },
    }
}

/// The schema version of the tombstone for `guid`: the overlay row's own
/// where there is one, else the store's.
pub open spec fn tombstone_version(db: DbView, guid: Seq<char>) -> SchemaVersion {
    if has_local(db.local, guid) {
        db.local[local_pos(db.local, guid)].schema_version
    } else {
        db.info.version
    }
}

/// What `delete_by_id` returns and leaves behind.
///
/// Where no record is visible for the id the answer is `false` and nothing
/// changes. Else the counter must have room and lie above what the visible
/// row's clock holds for this client; then the overlay row becomes, or a
/// new overlay row is, a tombstone with the clock moved on, and the mirror
/// row is overridden.
pub open spec fn spec_delete(db: DbView, guid: Seq<char>, now: i64) -> (Result<bool, ErrorView>, DbView) {
    match visible_clock(db, guid) {
        None => (Ok(false), db),
        Some(clock) => if db.change_counter >= i64::MAX {
            (Err(ErrorView::DbCorruption), db)
        } else if db.change_counter + 1 <= counter_in(clock, db.client_id) {
            (Err(ErrorView::CausalityViolation), db)
        } else {
            (
                Ok(true),
                written(
                    db,
                    LocalRowView {
                        guid,
                        record: Seq::empty(),
                        vclock: clock.insert(db.client_id, (db.change_counter + 1) as nat),
                        last_writer_id: db.client_id,
                        local_modified_ms: now,
                        is_deleted: true,
                        sync_status: SyncStatus::Changed,
                        schema_version: tombstone_version(db, guid),
                    },
                ),
            )
        },
    }
}

/// The mirror with `row` in the place of the row with its id, or at the
/// end where the mirror has none.
pub open spec fn put_mirror(mirror: Seq<MirrorRowView>, row: MirrorRowView) -> Seq<MirrorRowView> {
    if has_mirror(mirror, row.guid) {
        mirror.update(mirror_pos(mirror, row.guid), row)
    } else {
        mirror.push(row)
    }
}

/// What an inbound change leaves behind: the mirror row is written as it
/// came, but overridden exactly if the overlay has a row for its id.
/// Overlay and counter stay as they are.
pub open spec fn spec_inbound(db: DbView, row: MirrorRowView) -> DbView {
    DbView {
        mirror: put_mirror(db.mirror, MirrorRowView { is_overridden: has_local(db.local, row.guid), ..row }),
        ..db
    }
}

/// The overlay rows that the sync step owes the server: those that are
/// not synced, in stored order.
pub open spec fn pending(rows: Seq<LocalRowView>) -> Seq<LocalRowView>
    decreases rows.len(),
{
    if rows.len() == 0 {
        Seq::empty()
    } else if rows.last().sync_status == SyncStatus::Synced {
        pending(rows.drop_last())
    } else {
        pending(rows.drop_last()).push(rows.last())
    }
}

/// In a table with unique ids a row is where its id is looked up.
pub proof fn lemma_local_pos(rows: Seq<LocalRowView>, i: int)
    requires
        unique_local(rows),
        0 <= i < rows.len(),
    ensures
        has_local(rows, rows[i].guid),
        local_pos(rows, rows[i].guid) == i,
{
    let k = local_pos(rows, rows[i].guid);
    assert(rows[i].guid == rows[i].guid);
    if k < i {
        assert(rows[k].guid != rows[i].guid);
    } else if i < k {
        assert(rows[i].guid != rows[k].guid);
    }
}

/// In a mirror with unique ids a row is where its id is looked up.
pub proof fn lemma_mirror_pos(rows: Seq<MirrorRowView>, j: int)
    requires
        unique_mirror(rows),
        0 <= j < rows.len(),
    ensures
        has_mirror(rows, rows[j].guid),
        mirror_pos(rows, rows[j].guid) == j,
{
    let k = mirror_pos(rows, rows[j].guid);
    assert(rows[j].guid == rows[j].guid);
    if k < j {
        assert(rows[k].guid != rows[j].guid);
    } else if j < k {
        assert(rows[j].guid != rows[k].guid);
    }
}

/// Marking a mirror row overridden keeps a store well formed.
pub proof fn lemma_mark_overridden_wf(db: DbView, guid: Seq<char>)
    requires
        db_wf(db),
    ensures
        db_wf(DbView { mirror: mark_overridden(db.mirror, guid), ..db }),
        mark_overridden(db.mirror, guid).len() == db.mirror.len(),
        forall|j: int|
            0 <= j < db.mirror.len() ==> (#[trigger] mark_overridden(db.mirror, guid)[j]).guid == db.mirror[j].guid,
        forall|j: int|
            0 <= j < db.mirror.len() && db.mirror[j].guid == guid ==> (#[trigger] mark_overridden(
                db.mirror,
                guid,
            )[j]).is_overridden,
        forall|j: int|
            0 <= j < db.mirror.len() && db.mirror[j].guid != guid ==> #[trigger] mark_overridden(db.mirror, guid)[j]
                == db.mirror[j],
{
    let m = mark_overridden(db.mirror, guid);
    if has_mirror(db.mirror, guid) {
        let p = mirror_pos(db.mirror, guid);
        assert forall|j: int| 0 <= j < db.mirror.len() && db.mirror[j].guid == guid implies (#[trigger] m[j]).is_overridden by {
            lemma_mirror_pos(db.mirror, j);
        }
        assert forall|i: int, j: int| 0 <= i < j < m.len() implies (#[trigger] m[i]).guid != (#[trigger] m[j]).guid by {
            assert(m[i].guid == db.mirror[i].guid);
            assert(m[j].guid == db.mirror[j].guid);
        }
        assert forall|i: int, j: int|
            0 <= i < db.local.len() && 0 <= j < m.len() && (#[trigger] db.local[i]).guid == (#[trigger] m[j]).guid implies m[j].is_overridden by {
            assert(m[j].guid == db.mirror[j].guid);
            if j != p {
                assert(m[j] == db.mirror[j]);
            }
        }
    }
}

/// An inbound change keeps a store well formed.
pub proof fn lemma_inbound_wf(db: DbView, row: MirrorRowView)
    requires
        db_wf(db),
    ensures
        db_wf(spec_inbound(db, row)),
{
    let put = MirrorRowView { is_overridden: has_local(db.local, row.guid), ..row };
    let m = put_mirror(db.mirror, put);
    if has_mirror(db.mirror, row.guid) {
        let p = mirror_pos(db.mirror, row.guid);
        assert forall|i: int, j: int| 0 <= i < j < m.len() implies (#[trigger] m[i]).guid != (#[trigger] m[j]).guid by {
            assert(m[i].guid == db.mirror[i].guid);
            assert(m[j].guid == db.mirror[j].guid);
        }
        assert forall|i: int, j: int|
            0 <= i < db.local.len() && 0 <= j < m.len() && (#[trigger] db.local[i]).guid == (#[trigger] m[j]).guid
            implies m[j].is_overridden by {
            if j != p {
                assert(m[j] == db.mirror[j]);
            }
        }
    } else {
        assert forall|i: int, j: int| 0 <= i < j < m.len() implies (#[trigger] m[i]).guid != (#[trigger] m[j]).guid by {
            assert(m[i] == db.mirror[i]);
            if j < db.mirror.len() {
                assert(m[j] == db.mirror[j]);
            }
        }
        assert forall|i: int, j: int|
            0 <= i < db.local.len() && 0 <= j < m.len() && (#[trigger] db.local[i]).guid == (#[trigger] m[j]).guid
            implies m[j].is_overridden by {
            if j < db.mirror.len() {
                assert(m[j] == db.mirror[j]);
            }
        }
    }
}

/// A write keeps a store well formed.
pub proof fn lemma_written_wf(db: DbView, row: LocalRowView)
    requires
        db_wf(db),
        db.change_counter < i64::MAX,
    ensures
        db_wf(written(db, row)),
{
    let guid = row.guid;
    lemma_mark_overridden_wf(db, guid);
    let m = mark_overridden(db.mirror, guid);
    let l = put_local(db.local, row);
    if has_local(db.local, guid) {
        let p = local_pos(db.local, guid);
        assert forall|i: int, j: int| 0 <= i < j < l.len() implies (#[trigger] l[i]).guid != (#[trigger] l[j]).guid by {
            assert(l[i].guid == db.local[i].guid);
            assert(l[j].guid == db.local[j].guid);
        }
        assert forall|i: int, j: int|
            0 <= i < l.len() && 0 <= j < m.len() && (#[trigger] l[i]).guid == (#[trigger] m[j]).guid implies m[j].is_overridden by {
            assert(l[i].guid == db.local[i].guid);
            assert(m[j].guid == db.mirror[j].guid);
            assert(db.mirror[j].is_overridden);
            if db.mirror[j].guid != guid {
                assert(m[j] == db.mirror[j]);
            }
        }
    } else {
        assert forall|i: int, j: int| 0 <= i < j < l.len() implies (#[trigger] l[i]).guid != (#[trigger] l[j]).guid by {
            if j == db.local.len() {
                assert(l[i] == db.local[i]);
            } else {
                assert(l[i] == db.local[i]);
                assert(l[j] == db.local[j]);
            }
        }
        assert forall|i: int, j: int|
            0 <= i < l.len() && 0 <= j < m.len() && (#[trigger] l[i]).guid == (#[trigger] m[j]).guid implies m[j].is_overridden by {
            assert(m[j].guid == db.mirror[j].guid);
            if i < db.local.len() {
                assert(l[i] == db.local[i]);
                assert(db.mirror[j].is_overridden);
                if db.mirror[j].guid != guid {
                    assert(m[j] == db.mirror[j]);
                }
            }
        }
    }
}

/// The tables and the meta table of a database.
pub struct StoredView {
    pub local: Seq<LocalRowView>,
    pub mirror: Seq<MirrorRowView>,
    pub change_counter: Option<i64>,
    pub client_id: Option<Seq<char>>,
    pub schema_version: Option<SchemaVersion>,
}

/// The tables are sound: unique ids, and every overlay row overrides its
/// mirror row.
pub open spec fn tables_sound(local: Seq<LocalRowView>, mirror: Seq<MirrorRowView>) -> bool {
    unique_local(local) && unique_mirror(mirror) && overrides_hold(local, mirror)
}

/// What opening a store gives.
///
/// Tables that are not sound are corrupt. A database without meta data is
/// new: it gets the fresh client id and a counter of zero. Meta data that
/// is there in part, or a negative counter, is corrupt. A stored schema
/// version with another major number than the given schema's does not
/// match. Else the store opens on what is stored, under the given schema.
pub open spec fn spec_open(s: StoredView, native: InfoView, fresh: Seq<char>) -> Result<DbView, ErrorView> {
    if !tables_sound(s.local, s.mirror) {
        Err(ErrorView::DbCorruption)
    } else if s.change_counter is None && s.client_id is None && s.schema_version is None {
        Ok(DbView { local: s.local, mirror: s.mirror, change_counter: 0, client_id: fresh, info: native })
    } else if s.change_counter is None || s.client_id is None || s.schema_version is None
        || s.change_counter->Some_0 < 0 {
        Err(ErrorView::DbCorruption)
    } else if s.schema_version->Some_0.major != native.version.major {
        Err(ErrorView::SchemaMismatch)
    } else {
        Ok(
            DbView {
                local: s.local,
                mirror: s.mirror,
                change_counter: s.change_counter->Some_0 as int,
                client_id: s.client_id->Some_0,
                info: native,
            },
        )
    }
}

/// The records of the overlay rows that are no tombstones, in stored order.
pub open spec fn live_records(rows: Seq<LocalRowView>) -> Seq<RecordView>
    decreases rows.len(),
{
    if rows.len() == 0 {
        Seq::empty()
    } else if rows.last().is_deleted {
        live_records(rows.drop_last())
    } else {
        live_records(rows.drop_last()).push(rows.last().record)
    }
}

/// The records of the mirror rows that are not overridden, in stored order.
pub open spec fn open_records(rows: Seq<MirrorRowView>) -> Seq<RecordView>
    decreases rows.len(),
{
    if rows.len() == 0 {
        Seq::empty()
    } else if rows.last().is_overridden {
        open_records(rows.drop_last())
    } else {
        open_records(rows.drop_last()).push(rows.last().record)
    }
}

/// The native forms of a list of stored records, or the schema violation
/// if any of them breaks the schema.
pub open spec fn all_native(info: InfoView, recs: Seq<RecordView>) -> Result<Seq<RecordView>, ErrorView>
    decreases recs.len(),
{
    if recs.len() == 0 {
        Ok(Seq::empty())
    } else {
        match (all_native(info, recs.drop_last()), crate::schema::to_native(info, recs.last())) {
            (Ok(head), Ok(last)) => Ok(head.push(last)),
            _ => Err(ErrorView::InvalidRecord(InvalidRecord::SchemaViolation)),
        }
    }
}

/// What `get_all` returns: every visible record in its native form, the
/// overlay's before the mirror's.
pub open spec fn spec_get_all(db: DbView) -> Result<Seq<RecordView>, ErrorView> {
    all_native(db.info, live_records(db.local) + open_records(db.mirror))
}

/// What `get_by_id` returns: the visible record in its native form.
pub open spec fn spec_get(db: DbView, guid: Seq<char>) -> Result<Option<RecordView>, ErrorView> {
    match visible_record(db, guid) {
        None => Ok(None),
        Some(rec) => match crate::schema::to_native(db.info, rec) {
            Ok(native) => Ok(Some(native)),
            Err(e) => Err(e),
        },
    }
}

/// A list of records that fails to translate keeps failing when it grows.
pub proof fn lemma_all_native_grows(info: InfoView, recs: Seq<RecordView>, more: Seq<RecordView>)
    requires
        all_native(info, recs) is Err,
    ensures
        all_native(info, recs + more) is Err,
    decreases more.len(),
{
    if more.len() == 0 {
        assert(recs + more =~= recs);
    } else {
        assert((recs + more).drop_last() =~= recs + more.drop_last());
        lemma_all_native_grows(info, recs, more.drop_last());
    }
}

} // verus!
