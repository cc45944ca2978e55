//! The rows of the two tables and of the meta table, as stored.

use crate::schema::{LocalRecord, SchemaVersion};
use crate::storage::model::{LocalRowView, MirrorRowView, SyncStatus};
use crate::vclock::VClock;
use vstd::prelude::*;

verus! {

impl SyncStatus {
    /// The number that a stored row holds for the status.
    pub fn code(self) -> (c: u8)
        ensures
            c == self.rank(),
    {
        match self {
            SyncStatus::Synced => 0,
            SyncStatus::Changed => 1,
            SyncStatus::New => 2,
        }
    }

    /// The status that a stored number stands for.
    pub fn from_code(c: u8) -> (s: Option<SyncStatus>)
        ensures
            c <= 2 <==> s is Some,
            s matches Some(status) ==> status.rank() == c,
    {
        if c == 0 {
            Some(SyncStatus::Synced)
        } else if c == 1 {
            Some(SyncStatus::Changed)
        } else if c == 2 {
            Some(SyncStatus::New)
        } else {
            None
        }
    }

    /// The status after one more local change: the greater of the status
    /// and `Changed`.
    pub fn after_change(self) -> (s: SyncStatus)
        ensures
            s == self.changed(),
    {
        match self {
            SyncStatus::Synced => SyncStatus::Changed,
            other => other,
        }
    }
}

/// A row of the local overlay.
#[derive(Debug)]
pub struct LocalRow {
    pub guid: String,
    pub record_data: LocalRecord,
    pub vector_clock: VClock,
    pub last_writer_id: String,
    pub local_modified_ms: i64,
    pub is_deleted: bool,
    pub sync_status: SyncStatus,
    pub remerge_schema_version: SchemaVersion,
}

/// A row of the mirror.
#[derive(Debug)]
pub struct MirrorRow {
    pub guid: String,
    pub record_data: LocalRecord,
    pub vector_clock: VClock,
    pub last_writer_id: String,
    pub server_modified_ms: i64,
    pub is_overridden: bool,
    pub ttl: Option<u32>,
    pub sortindex: Option<i32>,
}

impl View for LocalRow {
    type V = LocalRowView;

    open spec fn view(&self) -> LocalRowView {
        LocalRowView {
            guid: self.guid@,
            record: self.record_data@,
            vclock: self.vector_clock@,
            last_writer_id: self.last_writer_id@,
            local_modified_ms: self.local_modified_ms,
            is_deleted: self.is_deleted,
            sync_status: self.sync_status,
            schema_version: self.remerge_schema_version,
        }
    }
}

impl View for MirrorRow {
    type V = MirrorRowView;

    open spec fn view(&self) -> MirrorRowView {
        MirrorRowView {
            guid: self.guid@,
            record: self.record_data@,
            vclock: self.vector_clock@,
            last_writer_id: self.last_writer_id@,
            server_modified_ms: self.server_modified_ms,
            is_overridden: self.is_overridden,
            ttl: self.ttl,
            sortindex: self.sortindex,
        }
    }
}

impl Clone for LocalRow {
    fn clone(&self) -> (r: LocalRow)
        ensures
            r@ == self@,
    {
        LocalRow {
            guid: self.guid.clone(),
            record_data: self.record_data.clone(),
            vector_clock: self.vector_clock.clone(),
            last_writer_id: self.last_writer_id.clone(),
            local_modified_ms: self.local_modified_ms,
            is_deleted: self.is_deleted,
            sync_status: self.sync_status,
            remerge_schema_version: self.remerge_schema_version,
        }
    }
}

impl Clone for MirrorRow {
    fn clone(&self) -> (r: MirrorRow)
        ensures
            r@ == self@,
    {
        MirrorRow {
            guid: self.guid.clone(),
            record_data: self.record_data.clone(),
            vector_clock: self.vector_clock.clone(),
            last_writer_id: self.last_writer_id.clone(),
            server_modified_ms: self.server_modified_ms,
            is_overridden: self.is_overridden,
            ttl: self.ttl,
            sortindex: self.sortindex,
        }
    }
}

/// The views of a list of overlay rows.
pub open spec fn local_rows_view(rows: Seq<LocalRow>) -> Seq<LocalRowView> {
    Seq::new(rows.len(), |i: int| rows[i]@)
}

/// The views of a list of mirror rows.
pub open spec fn mirror_rows_view(rows: Seq<MirrorRow>) -> Seq<MirrorRowView> {
    Seq::new(rows.len(), |i: int| rows[i]@)
}

/// The meta table: the bootstrap data of a store. A store that was never
/// opened has none of it.
#[derive(Debug)]
pub struct Meta {
    pub change_counter: Option<i64>,
    pub client_id: Option<String>,
    pub schema_version: Option<SchemaVersion>,
}

pub struct MetaView {
    pub change_counter: Option<i64>,
    pub client_id: Option<Seq<char>>,
    pub schema_version: Option<SchemaVersion>,
}

impl View for Meta {
    type V = MetaView;

    open spec fn view(&self) -> MetaView {
        MetaView {
            change_counter: self.change_counter,
            client_id: match self.client_id {
                Some(id) => Some(id@),
                None => None,
            },
            schema_version: self.schema_version,
        }
    }
}

/// What a database holds: the two tables and the meta table.
#[derive(Debug)]
pub struct Storage {
    pub local: Vec<LocalRow>,
    pub mirror: Vec<MirrorRow>,
    pub meta: Meta,
}

pub struct StorageView {
    pub local: Seq<LocalRowView>,
    pub mirror: Seq<MirrorRowView>,
    pub meta: MetaView,
}

impl View for Storage {
    type V = StorageView;

    open spec fn view(&self) -> StorageView {
        StorageView {
            local: local_rows_view(self.local@),
            mirror: mirror_rows_view(self.mirror@),
            meta: self.meta@,
        }
    }
}

impl Storage {
    /// A database that holds nothing yet.
    pub fn new() -> (s: Storage)
        ensures
            s@.local.len() == 0,
            s@.mirror.len() == 0,
            s@.meta == (MetaView { change_counter: None, client_id: None, schema_version: None }),
    {
        Storage {
            local: Vec::new(),
            mirror: Vec::new(),
            meta: Meta { change_counter: None, client_id: None, schema_version: None },
        }
    }
}

} // verus!
