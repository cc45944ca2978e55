//! The open store and its operations.

use crate::error::{ErrorKind, ErrorView, InvalidRecord};
use crate::platform::{now_ms, random_guid};
use crate::schema::{LocalRecord, NativeRecord, NativeSchemaInfo, RemergeInfo, ToLocalReason};
use crate::storage::model::{
    all_native, db_wf, dupe_exists, has_local, has_mirror, lemma_all_native_grows, lemma_inbound_wf,
    lemma_local_pos, lemma_mark_overridden_wf, lemma_mirror_pos, lemma_written_wf, live_records,
    local_dupe, local_pos, mark_overridden, mirror_copy, mirror_dupe, mirror_pos, open_records,
    overlay_base, overrides_hold, pending, spec_create, spec_delete, spec_get, spec_get_all,
    spec_inbound, spec_open, spec_update, unique_local, unique_mirror, visible, visible_clock,
    written, DbView, LocalRowView, MirrorRowView, RecordView, StoredView, SyncStatus,
};
use crate::storage::rows::{
    local_rows_view, mirror_rows_view, LocalRow, Meta, MirrorRow, Storage, StorageView,
};
use crate::text::str_eq;
use crate::vclock::VClock;
use vstd::prelude::*;

verus! {

/// An open store. It owns its tables; every operation leaves them well
/// formed, and a failed operation leaves them as they were.
#[derive(Debug)]
pub struct RemergeDb {
    local: Vec<LocalRow>,
    mirror: Vec<MirrorRow>,
    change_counter: i64,
    client_id: String,
    info: RemergeInfo,
}

impl View for RemergeDb {
    type V = DbView;

    closed spec fn view(&self) -> DbView {
        DbView {
            local: local_rows_view(self.local@),
            mirror: mirror_rows_view(self.mirror@),
            change_counter: self.change_counter as int,
            client_id: self.client_id@,
            info: self.info@,
        }
    }
}

/// The views of a list of native records.
pub open spec fn natives_view(recs: Seq<NativeRecord>) -> Seq<RecordView> {
    Seq::new(recs.len(), |i: int| recs[i]@)
}

fn find_local(rows: &Vec<LocalRow>, guid: &str) -> (r: Option<usize>)
    requires
        unique_local(local_rows_view(rows@)),
    ensures
        r is Some <==> has_local(local_rows_view(rows@), guid@),
        r matches Some(i) ==> i < rows.len() && i == local_pos(local_rows_view(rows@), guid@) && rows@[i as int].guid@
            == guid@,
{
    let ghost v = local_rows_view(rows@);
    let mut i: usize = 0;
    while i < rows.len()
        invariant
            0 <= i <= rows.len(),
            v == local_rows_view(rows@),
            unique_local(v),
            forall|k: int| 0 <= k < i ==> (#[trigger] v[k]).guid != guid@,
        decreases rows.len() - i,
    {
        if str_eq(rows[i].guid.as_str(), guid) {
            proof {
                lemma_local_pos(v, i as int);
            }
            return Some(i);
        }
        i += 1;
    }
    None
}

fn find_mirror(rows: &Vec<MirrorRow>, guid: &str) -> (r: Option<usize>)
    requires
        unique_mirror(mirror_rows_view(rows@)),
    ensures
        r is Some <==> has_mirror(mirror_rows_view(rows@), guid@),
        r matches Some(j) ==> j < rows.len() && j == mirror_pos(mirror_rows_view(rows@), guid@) && rows@[j as int].guid@
            == guid@,
{
    let ghost v = mirror_rows_view(rows@);
    let mut j: usize = 0;
    while j < rows.len()
        invariant
            0 <= j <= rows.len(),
            v == mirror_rows_view(rows@),
            unique_mirror(v),
            forall|k: int| 0 <= k < j ==> (#[trigger] v[k]).guid != guid@,
        decreases rows.len() - j,
    {
        if str_eq(rows[j].guid.as_str(), guid) {
            proof {
                lemma_mirror_pos(v, j as int);
            }
            return Some(j);
        }
        j += 1;
    }
    None
}

fn local_ids_unique(rows: &Vec<LocalRow>) -> (r: bool)
    ensures
        r == unique_local(local_rows_view(rows@)),
{
    let ghost v = local_rows_view(rows@);
    let mut j: usize = 0;
    while j < rows.len()
        invariant
            0 <= j <= rows.len(),
            v == local_rows_view(rows@),
            forall|a: int, b: int| 0 <= a < b < j ==> (#[trigger] v[a]).guid != (#[trigger] v[b]).guid,
        decreases rows.len() - j,
    {
        let mut i: usize = 0;
        while i < j
            invariant
                0 <= i <= j < rows.len(),
                v == local_rows_view(rows@),
                forall|a: int| 0 <= a < i ==> (#[trigger] v[a]).guid != v[j as int].guid,
            decreases j - i,
        {
            if str_eq(rows[i].guid.as_str(), rows[j].guid.as_str()) {
                assert(v[i as int].guid == v[j as int].guid);
                return false;
            }
            i += 1;
        }
        j += 1;
    }
    true
}

fn mirror_ids_unique(rows: &Vec<MirrorRow>) -> (r: bool)
    ensures
        r == unique_mirror(mirror_rows_view(rows@)),
{
    let ghost v = mirror_rows_view(rows@);
    let mut j: usize = 0;
    while j < rows.len()
        invariant
            0 <= j <= rows.len(),
            v == mirror_rows_view(rows@),
            forall|a: int, b: int| 0 <= a < b < j ==> (#[trigger] v[a]).guid != (#[trigger] v[b]).guid,
        decreases rows.len() - j,
    {
        let mut i: usize = 0;
        while i < j
            invariant
                0 <= i <= j < rows.len(),
                v == mirror_rows_view(rows@),
                forall|a: int| 0 <= a < i ==> (#[trigger] v[a]).guid != v[j as int].guid,
            decreases j - i,
        {
            if str_eq(rows[i].guid.as_str(), rows[j].guid.as_str()) {
                assert(v[i as int].guid == v[j as int].guid);
                return false;
            }
            i += 1;
        }
        j += 1;
    }
    true
}

fn overlay_overrides(local: &Vec<LocalRow>, mirror: &Vec<MirrorRow>) -> (r: bool)
    ensures
        r == overrides_hold(local_rows_view(local@), mirror_rows_view(mirror@)),
{
    let ghost l = local_rows_view(local@);
    let ghost m = mirror_rows_view(mirror@);
    let mut i: usize = 0;
    while i < local.len()
        invariant
            0 <= i <= local.len(),
            l == local_rows_view(local@),
            m == mirror_rows_view(mirror@),
            forall|a: int, b: int|
                0 <= a < i && 0 <= b < m.len() && (#[trigger] l[a]).guid == (#[trigger] m[b]).guid ==> m[b].is_overridden,
        decreases local.len() - i,
    {
        let mut j: usize = 0;
        while j < mirror.len()
            invariant
                0 <= j <= mirror.len(),
                0 <= i < local.len(),
                l == local_rows_view(local@),
                m == mirror_rows_view(mirror@),
                forall|b: int| 0 <= b < j && l[i as int].guid == (#[trigger] m[b]).guid ==> m[b].is_overridden,
            decreases mirror.len() - j,
        {
            if !mirror[j].is_overridden && str_eq(local[i].guid.as_str(), mirror[j].guid.as_str()) {
                assert(l[i as int].guid == m[j as int].guid && !m[j as int].is_overridden);
                return false;
            }
            j += 1;
        }
        i += 1;
    }
    true
}

/// The view of a database as the model sees it.
pub open spec fn stored(s: StorageView) -> StoredView {
    StoredView {
        local: s.local,
        mirror: s.mirror,
        change_counter: s.meta.change_counter,
        client_id: s.meta.client_id,
        schema_version: s.meta.schema_version,
    }
}

impl RemergeDb {
    /// What holds of every open store.
    #[verifier::type_invariant]
    pub closed spec fn wf(&self) -> bool {
        db_wf(self@)
    }

    /// Every open store is well formed.
    pub proof fn lemma_wf(&self)
        requires
            self.wf(),
        ensures
            db_wf(self@),
    {
    }

    /// Opens a store on what a database holds, under the schema `native`,
    /// with `fresh` as the client id of a database that has none yet.
    pub fn open_with(db: Storage, native: NativeSchemaInfo, fresh: String) -> (r: Result<RemergeDb, ErrorKind>)
        ensures
            r matches Ok(store) ==> spec_open(stored(db@), native@, fresh@) == Ok::<DbView, ErrorView>(store@)
                && store.wf(),
            r matches Err(e) ==> spec_open(stored(db@), native@, fresh@) == Err::<DbView, ErrorView>(e@),
    {
        if !local_ids_unique(&db.local) || !mirror_ids_unique(&db.mirror) || !overlay_overrides(
            &db.local,
            &db.mirror,
        ) {
            return Err(ErrorKind::DbCorruption);
        }
        let Storage { local, mirror, meta } = db;
        let Meta { change_counter, client_id, schema_version } = meta;
        match (change_counter, client_id, schema_version) {
            (None, None, None) => {
                Ok(RemergeDb { local, mirror, change_counter: 0, client_id: fresh, info: RemergeInfo::from_native(native) })
            },
            (Some(counter), Some(id), Some(version)) => {
                if counter < 0 {
                    return Err(ErrorKind::DbCorruption);
                }
                if version.major != native.version.major {
                    return Err(ErrorKind::SchemaMismatch);
                }
                Ok(
                    RemergeDb {
                        local,
                        mirror,
                        change_counter: counter,
                        client_id: id,
                        info: RemergeInfo::from_native(native),
                    },
                )
            },
            _ => Err(ErrorKind::DbCorruption),
        }
    }

    /// Opens a store on what a database holds. A database that was never
    /// opened gets a random client id.
    pub fn with_connection(db: Storage, native: NativeSchemaInfo) -> (r: Result<RemergeDb, ErrorKind>)
        ensures
            exists|fresh: Seq<char>|
                {
                    &&& r matches Ok(store) ==> #[trigger] spec_open(stored(db@), native@, fresh) == Ok::<
                        DbView,
                        ErrorView,
                    >(store@) && store.wf()
                    &&& r matches Err(e) ==> spec_open(stored(db@), native@, fresh) == Err::<DbView, ErrorView>(e@)
                },
    {
        let fresh = random_guid();
        let ghost id = fresh@;
        let r = RemergeDb::open_with(db, native, fresh);
        proof {
            let out = spec_open(stored(db@), native@, id);
            assert(r matches Ok(store) ==> out == Ok::<DbView, ErrorView>(store@) && store.wf());
            assert(r matches Err(e) ==> out == Err::<DbView, ErrorView>(e@));
        }
        r
    }

    /// The id of this replica.
    pub fn client_id(&self) -> (id: String)
        ensures
            id@ == self@.client_id,
    {
        self.client_id.clone()
    }

    /// The schema that the store was opened with.
    pub fn info(&self) -> (info: &RemergeInfo)
        ensures
            info@ == self@.info,
    {
        &self.info
    }

    /// The value of the change counter.
    pub fn change_counter(&self) -> (c: i64)
        ensures
            c == self@.change_counter,
    {
        self.change_counter
    }

    /// The rows of the local overlay.
    pub fn local_rows(&self) -> (rows: &Vec<LocalRow>)
        ensures
            local_rows_view(rows@) == self@.local,
    {
        &self.local
    }

    /// The rows of the mirror.
    pub fn mirror_rows(&self) -> (rows: &Vec<MirrorRow>)
        ensures
            mirror_rows_view(rows@) == self@.mirror,
    {
        &self.mirror
    }

    /// Whether a record is visible for `id`.
    pub fn exists_by_id(&self, id: &str) -> (r: Result<bool, ErrorKind>)
        ensures
            r matches Ok(found) && found == visible(self@, id@),
    {
        proof {
            use_type_invariant(self);
        }
        match find_local(&self.local, id) {
            Some(i) => {
                if !self.local[i].is_deleted {
                    return Ok(true);
                }
            },
            None => {},
        }
        match find_mirror(&self.mirror, id) {
            Some(j) => Ok(!self.mirror[j].is_overridden),
            None => Ok(false),
        }
    }

    /// The visible record for `id`, in its native form.
    pub fn get_by_id(&self, id: &str) -> (r: Result<Option<NativeRecord>, ErrorKind>)
        ensures
            r matches Ok(Some(rec)) ==> spec_get(self@, id@) == Ok::<Option<RecordView>, ErrorView>(Some(rec@)),
            r matches Ok(None) ==> spec_get(self@, id@) == Ok::<Option<RecordView>, ErrorView>(None),
            r matches Err(e) ==> spec_get(self@, id@) == Err::<Option<RecordView>, ErrorView>(e@),
    {
        proof {
            use_type_invariant(self);
        }
        match find_local(&self.local, id) {
            Some(i) => {
                if !self.local[i].is_deleted {
                    return match self.info.local_to_native(&self.local[i].record_data) {
                        Ok(rec) => Ok(Some(rec)),
                        Err(e) => Err(e),
                    };
                }
            },
            None => {},
        }
        match find_mirror(&self.mirror, id) {
            Some(j) => {
                if !self.mirror[j].is_overridden {
                    return match self.info.local_to_native(&self.mirror[j].record_data) {
                        Ok(rec) => Ok(Some(rec)),
                        Err(e) => Err(e),
                    };
                }
                Ok(None)
            },
            None => Ok(None),
        }
    }

    /// The clock of the visible record for `id`; a storage failure where
    /// none is visible.
    fn get_vclock(&self, id: &str) -> (r: Result<VClock, ErrorKind>)
        ensures
            r matches Ok(clock) ==> visible_clock(self@, id@) == Some(clock@),
            r matches Err(e) ==> visible_clock(self@, id@) is None && e@ == ErrorView::StorageFailure,
    {
        proof {
            use_type_invariant(self);
        }
        match find_local(&self.local, id) {
            Some(i) => {
                if !self.local[i].is_deleted {
                    return Ok(self.local[i].vector_clock.clone());
                }
            },
            None => {},
        }
        match find_mirror(&self.mirror, id) {
            Some(j) => {
                if !self.mirror[j].is_overridden {
                    return Ok(self.mirror[j].vector_clock.clone());
                }
                Err(ErrorKind::StorageFailure)
            },
            None => Err(ErrorKind::StorageFailure),
        }
    }

    /// The next value of the change counter. A counter without room is
    /// corrupt.
    fn counter_bump(&self) -> (r: Result<i64, ErrorKind>)
        ensures
            r matches Ok(c) ==> c == self@.change_counter + 1 && 0 < c,
            r matches Err(e) ==> self@.change_counter >= i64::MAX && e@ == ErrorView::DbCorruption,
    {
        proof {
            use_type_invariant(self);
        }
        if self.change_counter >= i64::MAX {
            Err(ErrorKind::DbCorruption)
        } else {
            Ok(self.change_counter + 1)
        }
    }

    /// Whether a visible record other than `guid`'s agrees with `record` on
    /// every deduplication field.
    fn dupe_exists(&self, guid: &str, record: &LocalRecord) -> (r: bool)
        ensures
            r == dupe_exists(self@, guid@, record@),
    {
        if self.info.dedupe_on.len() == 0 {
            return false;
        }
        let ghost db = self@;
        let mut i: usize = 0;
        while i < self.local.len()
            invariant
                0 <= i <= self.local.len(),
                db == self@,
                db.info.dedupe_on.len() > 0,
                !local_dupe(db, guid@, record@, i as int),
            decreases self.local.len() - i,
        {
            let row = &self.local[i];
            if !row.is_deleted && !str_eq(row.guid.as_str(), guid) && self.info.same_dedupe_fields(
                &row.record_data,
                record,
            ) {
                assert(db.local[i as int] == row@);
                assert(local_dupe(db, guid@, record@, db.local.len() as int));
                return true;
            }
            assert(db.local[i as int] == row@);
            i += 1;
        }
        let mut j: usize = 0;
        while j < self.mirror.len()
            invariant
                0 <= j <= self.mirror.len(),
                db == self@,
                db.info.dedupe_on.len() > 0,
                !local_dupe(db, guid@, record@, db.local.len() as int),
                !mirror_dupe(db, guid@, record@, j as int),
            decreases self.mirror.len() - j,
        {
            let row = &self.mirror[j];
            if !row.is_overridden && !str_eq(row.guid.as_str(), guid) && self.info.same_dedupe_fields(
                &row.record_data,
                record,
            ) {
                assert(db.mirror[j as int] == row@);
                assert(mirror_dupe(db, guid@, record@, db.mirror.len() as int));
                return true;
            }
            assert(db.mirror[j as int] == row@);
            j += 1;
        }
        false
    }
}

fn set_overridden(rows: &mut Vec<MirrorRow>, j: usize)
    requires
        j < old(rows).len(),
    ensures
        mirror_rows_view(final(rows)@) == mirror_rows_view(old(rows)@).update(
            j as int,
            (MirrorRowView { is_overridden: true, ..mirror_rows_view(old(rows)@)[j as int] }),
        ),
{
    let mut row = rows[j].clone();
    row.is_overridden = true;
    let ghost target = mirror_rows_view(rows@).update(
        j as int,
        MirrorRowView { is_overridden: true, ..mirror_rows_view(rows@)[j as int] },
    );
    assert(mirror_rows_view(rows@.update(j as int, row)) =~= target);
    rows.set(j, row);
}

impl RemergeDb {
    /// Marks the mirror row for `guid`, if there is one, as overridden.
    fn mark_mirror_overridden(&mut self, guid: &str)
        ensures
            final(self)@ == (DbView { mirror: mark_overridden(old(self)@.mirror, guid@), ..old(self)@ }),
    {
        proof {
            use_type_invariant(&*self);
            lemma_mark_overridden_wf(self@, guid@);
        }
        let mut mirror: Vec<MirrorRow> = Vec::new();
        std::mem::swap(&mut self.mirror, &mut mirror);
        match find_mirror(&mirror, guid) {
            Some(j) => {
                set_overridden(&mut mirror, j);
            },
            None => {},
        }
        std::mem::swap(&mut self.mirror, &mut mirror);
    }

    /// The overlay row that copies the mirror row for `guid` as it is;
    /// nothing where the mirror has no such row.
    fn clone_mirror_to_overlay(&self, guid: &str) -> (r: Option<LocalRow>)
        ensures
            r is Some <==> has_mirror(self@.mirror, guid@),
            r matches Some(row) ==> row@ == mirror_copy(
                self@.mirror[mirror_pos(self@.mirror, guid@)],
                self@.info.version,
            ),
    {
        proof {
            use_type_invariant(self);
        }
        match find_mirror(&self.mirror, guid) {
            Some(j) => {
                let from = &self.mirror[j];
                Some(
                    LocalRow {
                        guid: from.guid.clone(),
                        record_data: from.record_data.clone(),
                        vector_clock: from.vector_clock.clone(),
                        last_writer_id: from.last_writer_id.clone(),
                        local_modified_ms: 0,
                        is_deleted: false,
                        sync_status: SyncStatus::Synced,
                        remerge_schema_version: self.info.version,
                    },
                )
            },
            None => None,
        }
    }

    /// The overlay row that an update of `guid` starts from: the overlay's
    /// own, or a copy of the mirror's. Where neither table has a row there
    /// is no such record.
    fn ensure_local_overlay_exists(&self, guid: &str) -> (r: Result<LocalRow, ErrorKind>)
        ensures
            r matches Ok(row) ==> overlay_base(self@, guid@) == Some(row@),
            r matches Err(e) ==> overlay_base(self@, guid@) is None && e@ == ErrorView::NoSuchRecord(guid@),
    {
        proof {
            use_type_invariant(self);
        }
        match find_local(&self.local, guid) {
            Some(i) => Ok(self.local[i].clone()),
            None => match self.clone_mirror_to_overlay(guid) {
                Some(row) => Ok(row),
                None => Err(ErrorKind::NoSuchRecord(guid.to_owned())),
            },
        }
    }

    /// Draws the next counter value and moves `clock` on to it for this
    /// client: the clock and the counter of the write to come.
    fn get_bumped_vclock(&self, clock: VClock) -> (r: Result<(VClock, i64), ErrorKind>)
        ensures
            r matches Ok(pair) ==> pair.1 == self@.change_counter + 1 && pair.1 > crate::vclock::counter_in(
                clock@,
                self@.client_id,
            ) && pair.0@ == clock@.insert(self@.client_id, pair.1 as nat),
            r matches Err(e) ==> (if self@.change_counter >= i64::MAX {
                e@ == ErrorView::DbCorruption
            } else {
                self@.change_counter + 1 <= crate::vclock::counter_in(clock@, self@.client_id) && e@
                    == ErrorView::CausalityViolation
            }),
    {
        let counter = match self.counter_bump() {
            Ok(c) => c,
            Err(e) => {
                return Err(e);
            },
        };
        match clock.apply(self.client_id.clone(), counter as u64) {
            Ok(v) => Ok((v, counter)),
            Err(e) => Err(e),
        }
    }

    /// Puts `row` into the overlay, overrides its mirror row and stores the
    /// counter value that the write used up.
    fn write_row(&mut self, row: LocalRow, counter: i64)
        requires
            counter == old(self)@.change_counter + 1,
        ensures
            final(self)@ == written(old(self)@, row@),
    {
        proof {
            use_type_invariant(&*self);
        }
        let ghost before = self@;
        let ghost after = written(before, row@);
        proof {
            lemma_mark_overridden_wf(before, row@.guid);
            lemma_written_wf(before, row@);
        }
        self.mark_mirror_overridden(row.guid.as_str());
        let mut local: Vec<LocalRow> = Vec::new();
        std::mem::swap(&mut self.local, &mut local);
        match find_local(&local, row.guid.as_str()) {
            Some(i) => {
                assert(local_rows_view(local@.update(i as int, row)) =~= after.local);
                local.set(i, row);
            },
            None => {
                assert(local_rows_view(local@.push(row)) =~= after.local);
                local.push(row);
            },
        }
        std::mem::swap(&mut self.local, &mut local);
        self.change_counter = counter;
    }

    /// Takes an inbound change from the sync step: writes the mirror row
    /// for its record, overridden exactly if the overlay has a row for the
    /// record.
    pub fn write_mirror(&mut self, row: MirrorRow)
        ensures
            final(self)@ == spec_inbound(old(self)@, row@),
    {
        proof {
            use_type_invariant(&*self);
            lemma_inbound_wf(self@, row@);
        }
        let ghost after = spec_inbound(self@, row@);
        let mut row = row;
        row.is_overridden = find_local(&self.local, row.guid.as_str()).is_some();
        let mut mirror: Vec<MirrorRow> = Vec::new();
        std::mem::swap(&mut self.mirror, &mut mirror);
        match find_mirror(&mirror, row.guid.as_str()) {
            Some(j) => {
                assert(mirror_rows_view(mirror@.update(j as int, row)) =~= after.mirror);
                mirror.set(j, row);
            },
            None => {
                assert(mirror_rows_view(mirror@.push(row)) =~= after.mirror);
                mirror.push(row);
            },
        }
        std::mem::swap(&mut self.mirror, &mut mirror);
    }

    /// The overlay rows that the sync step owes the server: those that are
    /// not synced, in stored order.
    pub fn pending_rows(&self) -> (rows: Vec<LocalRow>)
        ensures
            local_rows_view(rows@) == pending(self@.local),
    {
        let ghost all = self@.local;
        let mut out: Vec<LocalRow> = Vec::new();
        let mut i: usize = 0;
        assert(all.take(0) =~= Seq::<LocalRowView>::empty());
        assert(local_rows_view(out@) =~= Seq::<LocalRowView>::empty());
        while i < self.local.len()
            invariant
                0 <= i <= self.local.len(),
                all == self@.local,
                local_rows_view(out@) == pending(all.take(i as int)),
            decreases self.local.len() - i,
        {
            let ghost before = local_rows_view(out@);
            proof {
                assert(all.take(i as int + 1).drop_last() =~= all.take(i as int));
                assert(all.take(i as int + 1).last() == self.local@[i as int]@);
            }
            match self.local[i].sync_status {
                SyncStatus::Synced => {},
                _ => {
                    out.push(self.local[i].clone());
                    assert(local_rows_view(out@) =~= before.push(self.local@[i as int]@));
                },
            }
            i += 1;
        }
        assert(all.take(i as int) =~= all);
        out
    }

    /// Stores a new record at the time `now`; `fresh` is the id for a
    /// record that brings none. Returns the record's id.
    pub fn create_with(&mut self, native: &NativeRecord, now: i64, fresh: &str) -> (r: Result<String, ErrorKind>)
        ensures
            final(self)@ == spec_create(old(self)@, native@, now, fresh@).1,
            r matches Ok(id) ==> spec_create(old(self)@, native@, now, fresh@).0 == Ok::<Seq<char>, ErrorView>(id@),
            r matches Err(e) ==> spec_create(old(self)@, native@, now, fresh@).0 == Err::<Seq<char>, ErrorView>(e@),
    {
        proof {
            use_type_invariant(&*self);
        }
        let (id, record) = match self.info.native_to_local(native, ToLocalReason::Creation, fresh) {
            Ok(pair) => pair,
            Err(e) => {
                return Err(e);
            },
        };
        if find_local(&self.local, id.as_str()).is_some() || find_mirror(&self.mirror, id.as_str()).is_some() {
            return Err(ErrorKind::InvalidRecord(InvalidRecord::IdNotUnique));
        }
        if self.dupe_exists(id.as_str(), &record) {
            return Err(ErrorKind::InvalidRecord(InvalidRecord::Duplicate));
        }
        let counter = match self.counter_bump() {
            Ok(c) => c,
            Err(e) => {
                return Err(e);
            },
        };
        let row = LocalRow {
            guid: id.clone(),
            record_data: record,
            vector_clock: VClock::new(self.client_id.clone(), counter as u64),
            last_writer_id: self.client_id.clone(),
            local_modified_ms: now,
            is_deleted: false,
            sync_status: SyncStatus::New,
            remerge_schema_version: self.info.version,
        };
        self.write_row(row, counter);
        Ok(id)
    }

    /// Stores a new record, stamped with the time of day, under a random id
    /// if it brings none.
    pub fn create(&mut self, native: &NativeRecord) -> (r: Result<String, ErrorKind>)
        ensures
            exists|now: i64, fresh: Seq<char>|
                {
                    &&& final(self)@ == (#[trigger] spec_create(old(self)@, native@, now, fresh)).1
                    &&& r matches Ok(id) ==> spec_create(old(self)@, native@, now, fresh).0 == Ok::<
                        Seq<char>,
                        ErrorView,
                    >(id@)
                    &&& r matches Err(e) ==> spec_create(old(self)@, native@, now, fresh).0 == Err::<
                        Seq<char>,
                        ErrorView,
                    >(e@)
                },
    {
        let now = now_ms();
        let fresh = random_guid();
        let r = self.create_with(native, now, fresh.as_str());
        proof {
            let out = spec_create(old(self)@, native@, now, fresh@);
            assert(self@ == out.1);
        }
        r
    }

    /// Replaces the record whose id `native` carries, at the time `now`.
    pub fn update_record_at(&mut self, native: &NativeRecord, now: i64) -> (r: Result<(), ErrorKind>)
        ensures
            final(self)@ == spec_update(old(self)@, native@, now).1,
            r matches Ok(_) ==> spec_update(old(self)@, native@, now).0 == Ok::<(), ErrorView>(()),
            r matches Err(e) ==> spec_update(old(self)@, native@, now).0 == Err::<(), ErrorView>(e@),
    {
        proof {
            use_type_invariant(&*self);
        }
        let (id, record) = match self.info.native_to_local(native, ToLocalReason::Update, "") {
            Ok(pair) => pair,
            Err(e) => {
                proof {
                    reveal_strlit("");
                    assert(""@ =~= Seq::<char>::empty());
                }
                return Err(e);
            },
        };
        proof {
            reveal_strlit("");
            assert(""@ =~= Seq::<char>::empty());
        }
        if self.dupe_exists(id.as_str(), &record) {
            return Err(ErrorKind::InvalidRecord(InvalidRecord::Duplicate));
        }
        let base = match self.ensure_local_overlay_exists(id.as_str()) {
            Ok(row) => row,
            Err(e) => {
                return Err(e);
            },
        };
        if base.is_deleted {
            return Err(ErrorKind::StorageFailure);
        }
        let status = base.sync_status;
        let (vclock, counter) = match self.get_bumped_vclock(base.vector_clock) {
            Ok(pair) => pair,
            Err(e) => {
                return Err(e);
            },
        };
        let row = LocalRow {
            guid: id,
            record_data: record,
            vector_clock: vclock,
            last_writer_id: self.client_id.clone(),
            local_modified_ms: now,
            is_deleted: false,
            sync_status: status.after_change(),
            remerge_schema_version: self.info.version,
        };
        self.write_row(row, counter);
        Ok(())
    }

    /// Replaces the record whose id `record` carries, stamped with the time
    /// of day.
    pub fn update_record(&mut self, record: &NativeRecord) -> (r: Result<(), ErrorKind>)
        ensures
            exists|now: i64|
                {
                    &&& final(self)@ == (#[trigger] spec_update(old(self)@, record@, now)).1
                    &&& r matches Ok(_) ==> spec_update(old(self)@, record@, now).0 == Ok::<(), ErrorView>(())
                    &&& r matches Err(e) ==> spec_update(old(self)@, record@, now).0 == Err::<(), ErrorView>(e@)
                },
    {
        let now = now_ms();
        let r = self.update_record_at(record, now);
        proof {
            let out = spec_update(old(self)@, record@, now);
            assert(self@ == out.1);
        }
        r
    }

    /// Deletes the visible record for `id` at the time `now`, leaving a
    /// tombstone. Returns whether there was a record to delete.
    pub fn delete_by_id_at(&mut self, id: &str, now: i64) -> (r: Result<bool, ErrorKind>)
        ensures
            final(self)@ == spec_delete(old(self)@, id@, now).1,
            r matches Ok(done) ==> spec_delete(old(self)@, id@, now).0 == Ok::<bool, ErrorView>(done),
            r matches Err(e) ==> spec_delete(old(self)@, id@, now).0 == Err::<bool, ErrorView>(e@),
    {
        proof {
            use_type_invariant(&*self);
        }
        let clock = match self.get_vclock(id) {
            Ok(c) => c,
            Err(_) => {
                return Ok(false);
            },
        };
        let (vclock, counter) = match self.get_bumped_vclock(clock) {
            Ok(pair) => pair,
            Err(e) => {
                return Err(e);
            },
        };
        let version = match find_local(&self.local, id) {
            Some(i) => self.local[i].remerge_schema_version,
            None => self.info.version,
        };
        let row = LocalRow {
            guid: id.to_owned(),
            record_data: LocalRecord::empty(),
            vector_clock: vclock,
            last_writer_id: self.client_id.clone(),
            local_modified_ms: now,
            is_deleted: true,
            sync_status: SyncStatus::Changed,
            remerge_schema_version: version,
        };
        self.write_row(row, counter);
        Ok(true)
    }

    /// Deletes the visible record for `id`, stamped with the time of day.
    pub fn delete_by_id(&mut self, id: &str) -> (r: Result<bool, ErrorKind>)
        ensures
            exists|now: i64|
                {
                    &&& final(self)@ == (#[trigger] spec_delete(old(self)@, id@, now)).1
                    &&& r matches Ok(done) ==> spec_delete(old(self)@, id@, now).0 == Ok::<bool, ErrorView>(done)
                    &&& r matches Err(e) ==> spec_delete(old(self)@, id@, now).0 == Err::<bool, ErrorView>(e@)
                },
    {
        let now = now_ms();
        let r = self.delete_by_id_at(id, now);
        proof {
            let out = spec_delete(old(self)@, id@, now);
            assert(self@ == out.1);
        }
        r
    }

    /// Every visible record in its native form, the overlay's before the
    /// mirror's.
    pub fn get_all(&self) -> (r: Result<Vec<NativeRecord>, ErrorKind>)
        ensures
            r matches Ok(recs) ==> spec_get_all(self@) == Ok::<Seq<RecordView>, ErrorView>(natives_view(recs@)),
            r matches Err(e) ==> spec_get_all(self@) == Err::<Seq<RecordView>, ErrorView>(e@),
    {
        let ghost db = self@;
        let mut out: Vec<NativeRecord> = Vec::new();
        let mut i: usize = 0;
        assert(db.local.take(0) =~= Seq::<LocalRowView>::empty());
        assert(natives_view(out@) =~= Seq::<RecordView>::empty());
        while i < self.local.len()
            invariant
                0 <= i <= self.local.len(),
                db == self@,
                all_native(db.info, live_records(db.local.take(i as int))) == Ok::<Seq<RecordView>, ErrorView>(
                    natives_view(out@),
                ),
            decreases self.local.len() - i,
        {
            let row = &self.local[i];
            let ghost seen = live_records(db.local.take(i as int));
            let ghost done = natives_view(out@);
            proof {
                assert(db.local.take(i as int + 1).drop_last() =~= db.local.take(i as int));
                assert(db.local.take(i as int + 1).last() == row@);
            }
            if !row.is_deleted {
                match self.info.local_to_native(&row.record_data) {
                    Ok(rec) => {
                        out.push(rec);
                        proof {
                            assert(seen.push(row@.record).drop_last() =~= seen);
                            assert(natives_view(out@) =~= done.push(rec@));
                        }
                    },
                    Err(e) => {
                        proof {
                            let here = seen.push(row@.record);
                            assert(here.drop_last() =~= seen);
                            assert(all_native(db.info, here) is Err);
                            lemma_live_records_prefix(db.local, i as int + 1);
                            let rest = live_records(db.local).skip(here.len() as int);
                            assert(here + rest =~= live_records(db.local));
                            lemma_all_native_grows(db.info, here, rest + open_records(db.mirror));
                            assert(here + (rest + open_records(db.mirror)) =~= live_records(db.local) + open_records(
                                db.mirror,
                            ));
                        }
                        return Err(e);
                    },
                }
            }
            i += 1;
        }
        assert(db.local.take(i as int) =~= db.local);
        let ghost live = live_records(db.local);
        let mut j: usize = 0;
        assert(db.mirror.take(0) =~= Seq::<MirrorRowView>::empty());
        assert(live + open_records(db.mirror.take(0)) =~= live);
        while j < self.mirror.len()
            invariant
                0 <= j <= self.mirror.len(),
                db == self@,
                live == live_records(db.local),
                all_native(db.info, live + open_records(db.mirror.take(j as int))) == Ok::<Seq<RecordView>, ErrorView>(
                    natives_view(out@),
                ),
            decreases self.mirror.len() - j,
        {
            let row = &self.mirror[j];
            let ghost seen = live + open_records(db.mirror.take(j as int));
            let ghost done = natives_view(out@);
            proof {
                assert(db.mirror.take(j as int + 1).drop_last() =~= db.mirror.take(j as int));
                assert(db.mirror.take(j as int + 1).last() == row@);
            }
            if !row.is_overridden {
                proof {
                    assert(live + open_records(db.mirror.take(j as int + 1)) =~= seen.push(row@.record));
                    assert(seen.push(row@.record).drop_last() =~= seen);
                }
                match self.info.local_to_native(&row.record_data) {
                    Ok(rec) => {
                        out.push(rec);
                        proof {
                            assert(natives_view(out@) =~= done.push(rec@));
                        }
                    },
                    Err(e) => {
                        proof {
                            let here = seen.push(row@.record);
                            assert(all_native(db.info, here) is Err);
                            lemma_open_records_prefix(db.mirror, j as int + 1);
                            let got = open_records(db.mirror.take(j as int + 1));
                            let rest = open_records(db.mirror).skip(got.len() as int);
                            assert(got + rest =~= open_records(db.mirror));
                            lemma_all_native_grows(db.info, here, rest);
                            assert(here + rest =~= live + open_records(db.mirror));
                        }
                        return Err(e);
                    },
                }
            }
            j += 1;
        }
        assert(db.mirror.take(j as int) =~= db.mirror);
        Ok(out)
    }
}

/// The live records of a prefix of the overlay are a prefix of the live
/// records of the whole.
proof fn lemma_live_records_prefix(rows: Seq<LocalRowView>, n: int)
    requires
        0 <= n <= rows.len(),
    ensures
        live_records(rows.take(n)).len() <= live_records(rows).len(),
        live_records(rows.take(n)) == live_records(rows).take(live_records(rows.take(n)).len() as int),
    decreases rows.len() - n,
{
    if n == rows.len() {
        assert(rows.take(n) =~= rows);
        assert(live_records(rows).take(live_records(rows).len() as int) =~= live_records(rows));
    } else {
        lemma_live_records_prefix(rows, n + 1);
        assert(rows.take(n + 1).drop_last() =~= rows.take(n));
        let longer = live_records(rows.take(n + 1));
        let shorter = live_records(rows.take(n));
        assert(shorter =~= live_records(rows).take(shorter.len() as int));
    }
}

/// The open records of a prefix of the mirror are a prefix of the open
/// records of the whole.
proof fn lemma_open_records_prefix(rows: Seq<MirrorRowView>, n: int)
    requires
        0 <= n <= rows.len(),
    ensures
        open_records(rows.take(n)).len() <= open_records(rows).len(),
        open_records(rows.take(n)) == open_records(rows).take(open_records(rows.take(n)).len() as int),
    decreases rows.len() - n,
{
    if n == rows.len() {
        assert(rows.take(n) =~= rows);
        assert(open_records(rows).take(open_records(rows).len() as int) =~= open_records(rows));
    } else {
        lemma_open_records_prefix(rows, n + 1);
        assert(rows.take(n + 1).drop_last() =~= rows.take(n));
        let shorter = open_records(rows.take(n));
        assert(shorter =~= open_records(rows).take(shorter.len() as int));
    }
}

} // verus!
