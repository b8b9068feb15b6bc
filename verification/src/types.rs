//! The records, queries and results that cross the history store's boundary.

use vstd::prelude::*;

verus! {

/// One clipboard-history record, either with its full payload or as a summary row.
#[derive(Clone, Debug)]
pub struct HistoryItem {
    pub id: String,
    pub kind: String,
    pub title: String,
    pub content: String,
    pub source_app: String,
    pub source_app_icon: Option<String>,
    pub copied_at: String,
    pub updated_at: String,
    pub pinned: bool,
    pub permanent: bool,
    pub collection_id: Option<String>,
    pub search_terms: Vec<String>,
    pub ocr_text: Option<String>,
    pub ocr_status: Option<String>,
    pub image_hash: Option<String>,
    pub match_source: Option<HistoryMatchSource>,
    pub color: Option<String>,
    pub dimensions: Option<String>,
    pub formats: Vec<String>,
    pub omitted_formats: Vec<ClipboardFormat>,
    pub payload_loaded: bool,
    pub html: Option<String>,
    pub rtf_base64: Option<String>,
    pub image_url: Option<String>,
    pub files: Vec<ClipboardFile>,
}

/// Where a query's text matched a summary row.
#[derive(Clone, Copy, Debug, PartialEq, Eq, Structural)]
pub enum HistoryMatchSource {
    /// The query had no text (serialised as `none`).
    Unmatched,
    Direct,
    Index,
    Ocr,
}

/// A clipboard format that a record can hold or declare omitted.
#[derive(Clone, Copy, Debug, PartialEq, Eq, Structural, PartialOrd, Ord)]
pub enum ClipboardFormat {
    Text,
    Html,
    Rtf,
    Image,
    Files,
    Object,
}

/// One file of a file-list record.
#[derive(Clone, Debug)]
pub struct ClipboardFile {
    pub path: String,
    pub name: String,
    pub extension: Option<String>,
    pub size: Option<u64>,
    pub modified_at: Option<String>,
    pub directory: bool,
    pub exists: bool,
}

/// A batch of upserts and deletions, applied together with a capacity policy.
#[derive(Clone, Debug)]
pub struct HistoryMutation {
    pub upserts: Vec<HistoryItem>,
    pub delete_ids: Vec<String>,
    pub policy: CapacityPolicy,
}

/// The ids removed by capacity pruning during a mutation.
#[derive(Clone, Debug)]
pub struct HistoryMutationResult {
    pub pruned_ids: Vec<String>,
}

/// Limits on how much unprotected history is kept.
#[derive(Clone, Debug)]
pub struct CapacityPolicy {
    pub max_records: u64,
    pub max_image_bytes: u64,
    pub retention_days: Option<i64>,
}

/// Which collection a query is restricted to.
#[derive(Clone, Debug)]
pub enum CollectionScope {
    Any {},
    Unfiled {},
    Collection { id: String },
}

/// A paged history query.
#[derive(Clone, Debug)]
pub struct HistoryQuery {
    pub text: String,
    pub kinds: Vec<String>,
    pub source_apps: Vec<String>,
    pub collection: CollectionScope,
    pub pinned: Option<bool>,
    pub permanent: Option<bool>,
    pub limit: u32,
    pub cursor: Option<String>,
}

/// One page of summary rows.
#[derive(Clone, Debug)]
pub struct HistoryPage {
    pub items: Vec<HistoryItem>,
    pub next_cursor: Option<String>,
    pub total_count: u64,
}

/// A page request for images that still wait for OCR.
#[derive(Clone, Debug)]
pub struct PendingOcrQuery {
    pub limit: u32,
    pub cursor: Option<String>,
}

/// An image that still waits for OCR.
#[derive(Clone, Debug, PartialEq, Eq)]
pub struct PendingOcrCandidate {
    pub id: String,
    pub image_hash: String,
}

/// One page of images that still wait for OCR.
#[derive(Clone, Debug, PartialEq, Eq)]
pub struct PendingOcrPage {
    pub items: Vec<PendingOcrCandidate>,
    pub next_cursor: Option<String>,
}

/// How many records a deleted collection held.
#[derive(Clone, Debug, PartialEq, Eq)]
pub struct CollectionDeleteResult {
    pub affected_count: u64,
}

/// A permanent text or code snippet to create or edit.
#[derive(Clone, Debug)]
pub struct SnippetDraft {
    pub id: Option<String>,
    pub title: String,
    pub content: String,
    pub collection_id: Option<String>,
    pub kind: String,
}

/// The filter part of a batch query.
#[derive(Clone, Debug)]
pub struct BatchHistoryQuery {
    pub text: String,
    pub kinds: Vec<String>,
    pub source_apps: Vec<String>,
    pub collection: CollectionScope,
    pub pinned: Option<bool>,
}

/// The newest row a batch query may reach, in `copied_at DESC, id DESC` order.
#[derive(Clone, Debug)]
pub struct QueryUpperBound {
    pub copied_at: String,
    pub id: String,
}

/// The rows a batch action applies to.
#[derive(Clone, Debug)]
pub enum BatchTarget {
    Ids { ids: Vec<String> },
    Query { query: BatchHistoryQuery, upper_bound: QueryUpperBound, excluded_ids: Vec<String> },
}

/// What a batch does to its rows.
#[derive(Clone, Debug)]
pub enum BatchAction {
    Move { collection_id: Option<String> },
    SetPinned { pinned: bool },
    Delete {},
}

/// Counts reported after a batch.
#[derive(Clone, Debug, PartialEq, Eq)]
pub struct BatchResult {
    pub matched_count: u64,
    pub changed_count: u64,
    pub deleted_count: u64,
    pub pruned_ids: Vec<String>,
}

/// Logical and physical storage use, with the policy in force.
#[derive(Clone, Debug, PartialEq, Eq)]
pub struct StorageStats {
    pub database_bytes: u64,
    pub wal_bytes: u64,
    pub shm_bytes: u64,
    pub total_physical_bytes: u64,
    pub record_count: u64,
    pub pinned_count: u64,
    pub permanent_count: u64,
    pub image_bytes: u64,
    pub rich_format_bytes: u64,
    pub file_record_count: u64,
    pub logical_bytes: u64,
    pub oldest_copied_at: Option<String>,
    pub newest_copied_at: Option<String>,
    pub max_records: u64,
    pub max_image_bytes: u64,
    pub retention_days: Option<i64>,
}

/// Outcome of a backup request.
#[derive(Clone, Debug, PartialEq, Eq)]
pub enum BackupResult {
    Cancelled {},
    Saved {},
}

/// Outcome of preparing a restore.
#[derive(Clone, Debug, PartialEq, Eq)]
pub enum PreparedRestoreResult {
    Cancelled {},
    Prepared { token: String, current_count: u64, incoming_count: u64, schema_version: i64 },
}

/// Outcome of committing a prepared restore.
#[derive(Clone, Debug)]
pub enum RestoreResult {
    Restored {
        imported_count: u64,
        schema_version: i64,
        policy: CapacityPolicy,
        stats: StorageStats,
    },
}

/// Outcome of discarding a prepared restore.
#[derive(Clone, Debug, PartialEq, Eq)]
pub enum DiscardRestoreResult {
    Discarded {},
}

/// Why a database was quarantined.
#[derive(Clone, Copy, Debug, PartialEq, Eq, Structural)]
pub enum RecoveryReason {
    Corrupt,
    NotADatabase,
}

/// Why history is available read-only.
#[derive(Clone, Copy, Debug, PartialEq, Eq, Structural)]
pub enum HistoryReadOnlyReason {
    Busy,
    PermissionDenied,
    Io,
    DiskFull,
    Incompatible,
    QuarantineFailed,
    FreshDatabaseFailed,
    Unknown,
}

/// A user collection of records.
#[derive(Clone, Debug)]
pub struct Collection {
    pub id: String,
    pub name: String,
    pub created_at: String,
    pub updated_at: String,
    pub sort_order: i64,
}

} // verus!
