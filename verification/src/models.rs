//! Row and write-input types of the media database, and timestamp conversion.

use vstd::prelude::*;

use crate::media::MediaType;

verus! {

// ── Row types (read from the database) ──────────────────────────────

/// A source root directory as stored in the database.
#[derive(Debug, Clone)]
pub struct SourceRoot {
    pub id: i64,
    pub path: String,
    pub display_path: String,
    pub is_available: bool,
}

/// A media file as stored in the database.
#[derive(Debug, Clone)]
pub struct MediaRow {
    pub id: i64,
    pub path: String,
    pub filename: String,
    pub source_root_id: i64,
    pub media_type: MediaType,
    pub size_bytes: i64,
    /// Birth time is not always exposed on Linux filesystems.
    pub created_at: Option<i64>,
    pub modified_at: i64,
    pub date_added: i64,
    pub thumbnail_path: Option<String>,
    pub duration_secs: Option<i64>,
}

/// A media file as handed to the backend after a read.
#[derive(Debug, Clone)]
pub struct MediaItem {
    pub id: i64,
    pub path: String,
    pub filename: String,
    pub source_root_id: i64,
    pub media_type: MediaType,
    pub size_bytes: i64,
    pub created_at: Option<i64>,
    pub modified_at: i64,
    pub date_added: i64,
    pub thumbnail_path: Option<String>,
    pub duration_secs: Option<i64>,
}

impl MediaItem {
    /// The item carrying every field of a database row.
    pub fn from_row(row: MediaRow) -> (item: MediaItem)
        ensures
            item.id == row.id,
            item.path == row.path,
            item.filename == row.filename,
            item.source_root_id == row.source_root_id,
            item.media_type == row.media_type,
            item.size_bytes == row.size_bytes,
            item.created_at == row.created_at,
            item.modified_at == row.modified_at,
            item.date_added == row.date_added,
            item.thumbnail_path == row.thumbnail_path,
            item.duration_secs == row.duration_secs,
    {
        MediaItem {
            id: row.id,
            path: row.path,
            filename: row.filename,
            source_root_id: row.source_root_id,
            media_type: row.media_type,
            size_bytes: row.size_bytes,
            created_at: row.created_at,
            modified_at: row.modified_at,
            date_added: row.date_added,
            thumbnail_path: row.thumbnail_path,
            duration_secs: row.duration_secs,
        }
    }
}

/// Thumbnail cache status for a media row.
///
/// Lets a caller decide whether to show the current thumbnail, a kept-old
/// (`stale`) thumbnail, or a failure placeholder.
#[derive(Debug, Clone, PartialEq, Eq)]
pub struct ThumbnailStatus {
    /// Stable cache key addressing the current thumbnail file, if generated.
    pub cache_key: Option<String>,
    /// Path to the current (possibly stale) thumbnail file, if any.
    pub thumbnail_path: Option<String>,
    /// The source file changed since the thumbnail was generated; the old
    /// thumbnail is kept until an explicit regeneration succeeds.
    pub stale: bool,
    /// Last generation-failure reason, if the most recent attempt failed.
    pub failure: Option<String>,
}

/// The source fields needed to (re)generate a thumbnail and compute its stable
/// cache key.
#[derive(Debug, Clone)]
pub struct ThumbnailSource {
    pub media_id: i64,
    pub path: String,
    /// Canonical identity: the stable addressing basis for the cache key.
    pub canonical_identity: String,
    pub media_type: MediaType,
    pub size_bytes: i64,
    pub modified_at: i64,
}

/// Database manifest row used by thumbnail disk-cache LRU maintenance.
#[derive(Debug, Clone, PartialEq, Eq)]
pub struct ThumbnailCacheEntry {
    pub media_id: i64,
    pub cache_key: String,
    pub thumbnail_path: String,
    pub last_accessed_at: Option<i64>,
}

/// A folder-derived tag with its associated file count.
///
/// Tag identity is `(source_root_id, relative_folder_path)`: two folders with
/// the same basename in different roots or subtrees are distinct tags.
#[derive(Debug, Clone)]
pub struct TagWithCount {
    pub id: i64,
    pub source_root_id: i64,
    pub relative_folder_path: String,
    pub display_name: String,
    pub display_path: String,
    pub file_count: i64,
}

// ── Input types (written to the database) ───────────────────────────

/// Identity of a folder-derived tag, written during scanning.
///
/// Uniquely keyed by `(source_root_id, relative_folder_path)`.
/// `relative_folder_path` is empty for the source root itself (root-as-tag).
/// `display_name` is the folder basename; `display_path` is the lineage kept
/// for later disambiguation.
#[derive(Debug, Clone)]
pub struct TagIdentity {
    pub source_root_id: i64,
    pub relative_folder_path: String,
    pub display_name: String,
    pub display_path: String,
}

/// Data needed to insert or update a media entry.
#[derive(Debug, Clone)]
pub struct MediaEntry {
    pub path: String,
    /// Path relative to the owning source root; with `source_root_id` it forms
    /// the row's per-root identity.
    pub relative_path: String,
    /// Canonical target path: a regular file's own canonical path, or a file
    /// symlink's resolved target. Unique across the library.
    pub canonical_identity: String,
    pub filename: String,
    pub source_root_id: i64,
    pub media_type: MediaType,
    pub size_bytes: i64,
    pub created_at: Option<i64>,
    pub modified_at: i64,
}

/// A scan failure to persist in the `scan_errors` table.
///
/// Identity is `(source_root_id, scan_generation, path)`.
#[derive(Debug, Clone)]
pub struct ScanErrorEntry {
    pub source_root_id: i64,
    pub scan_generation: i64,
    pub path: String,
    pub category: String,
    pub message: String,
}

// ── Timestamp conversion ────────────────────────────────────────────

/// Milliseconds since the Unix epoch as stored: saturated at `i64::MAX`, and 0
/// for a time before the epoch (a corrupt timestamp must not abort indexing).
pub open spec fn epoch_millis_spec(since_epoch: Option<u128>) -> i64 {
    match since_epoch {
        Some(ms) => if ms > i64::MAX as u128 {
            i64::MAX
        } else {
            ms as i64
        },
        None => 0,
    }
}

/// Converts the milliseconds elapsed since the Unix epoch (or `None` for a
/// time before it) to the stored timestamp.
pub fn epoch_millis_from_duration(since_epoch: Option<u128>) -> (r: i64)
    ensures
        r == epoch_millis_spec(since_epoch),
{
    match since_epoch {
        Some(ms) => if ms > i64::MAX as u128 {
            i64::MAX
        } else {
            ms as i64
        },
        None => 0,
    }
}

#[verifier::external_type_specification]
#[verifier::external_body]
pub struct ExSystemTime(std::time::SystemTime);

/// What `SystemTime::duration_since(UNIX_EPOCH)` gives for `time`: the time
/// elapsed from the epoch, or `None` (std's `Err`) when `time` lies before
/// it. A function of the instant alone.
pub uninterp spec fn elapsed_since_epoch_of(time: std::time::SystemTime) -> Option<
    std::time::Duration,
>;

/// What `Duration::as_millis` gives for `d`: its whole milliseconds.
pub uninterp spec fn whole_millis_of(d: std::time::Duration) -> u128;

/// `SystemTime::duration_since(UNIX_EPOCH)`, with the error mapped to `None`.
#[verifier::external_body]
fn elapsed_since_epoch(time: std::time::SystemTime) -> (r: Option<std::time::Duration>)
    ensures
        r == elapsed_since_epoch_of(time),
{
    match time.duration_since(std::time::UNIX_EPOCH) {
        Ok(elapsed) => Some(elapsed),
        Err(_) => None,
    }
}

/// `Duration::as_millis`.
#[verifier::external_body]
fn duration_millis(d: std::time::Duration) -> (r: u128)
    ensures
        r == whole_millis_of(d),
{
    d.as_millis()
}

/// The milliseconds from the epoch to `time`, or `None` before the epoch.
pub open spec fn elapsed_millis(time: std::time::SystemTime) -> Option<u128> {
    match elapsed_since_epoch_of(time) {
        Some(d) => Some(whole_millis_of(d)),
        None => None,
    }
}

/// Converts a `SystemTime` to UTC Unix epoch milliseconds, the unit every
/// persisted timestamp uses.
pub fn system_time_to_epoch_millis(time: std::time::SystemTime) -> (r: i64)
    ensures
        r == epoch_millis_spec(elapsed_millis(time)),
        r >= 0,
{
    let since_epoch = match elapsed_since_epoch(time) {
        Some(d) => Some(duration_millis(d)),
        None => None,
    };
    epoch_millis_from_duration(since_epoch)
}

} // verus!
