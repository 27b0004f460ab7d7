//! Structured log records.
//!
//! Info-level events never carry a full filesystem path: paths are redacted to
//! their final component via [`redact_path`]. The records built here are
//! emitted by the application's log subscriber.

use vstd::prelude::*;

use crate::path::{file_name, file_name_of};
use crate::text::{chars_of, string_from_chars};

verus! {

/// Log file base name inside the user state directory.
pub const LOG_FILE_NAME: &'static str = "vesper.log";

/// Rotate each log file once it reaches 10 MB.
pub const MAX_LOG_FILE_BYTES: usize = 10485760;

/// Keep 3 rotated log files.
pub const KEEP_LOG_FILES: usize = 3;

/// The redacted form of a path: its final component, or the path itself when
/// it has none (e.g. `/`).
pub open spec fn redacted(path: Seq<char>) -> Seq<char> {
    match file_name(path) {
        Some(name) => name,
        None => path,
    }
}

/// Renders a path for info-level logs without leaking its full filesystem
/// location: only the final component is kept.
pub fn redact_path(path: &str) -> (r: String)
    ensures
        r@ == redacted(path@),
{
    let chars = chars_of(path);
    match file_name_of(&chars) {
        Some(name) => string_from_chars(&name),
        None => string_from_chars(&chars),
    }
}

/// A completed-scan log event.
#[derive(Debug, Clone, PartialEq, Eq)]
pub struct ScanCompletedRecord {
    /// The scanned root, redacted to its last component.
    pub root: String,
    pub files_found: u64,
    pub files_upserted: u64,
    pub files_removed: u64,
}

/// A source-root availability transition log event.
#[derive(Debug, Clone, PartialEq, Eq)]
pub struct RootAvailabilityRecord {
    /// The root, redacted to its last component.
    pub root: String,
    pub online: bool,
}

/// An applied-schema-migration log event.
#[derive(Debug, Clone, PartialEq, Eq)]
pub struct MigrationAppliedRecord {
    pub version: i64,
    pub name: String,
}

/// The record of a completed scan; the root is redacted so no full absolute
/// path appears at info level.
pub fn scan_completed(root: &str, files_found: u64, files_upserted: u64, files_removed: u64) -> (r:
    ScanCompletedRecord)
    ensures
        r.root@ == redacted(root@),
        r.files_found == files_found,
        r.files_upserted == files_upserted,
        r.files_removed == files_removed,
{
    ScanCompletedRecord { root: redact_path(root), files_found, files_upserted, files_removed }
}

/// The record of a source root's availability transition, path redacted.
pub fn root_availability_changed(root: &str, online: bool) -> (r: RootAvailabilityRecord)
    ensures
        r.root@ == redacted(root@),
        r.online == online,
{
    RootAvailabilityRecord { root: redact_path(root), online }
}

/// The record of a successfully applied schema migration.
pub fn migration_applied(version: i64, name: &str) -> (r: MigrationAppliedRecord)
    ensures
        r.version == version,
        r.name@ == name@,
{
    MigrationAppliedRecord { version, name: string_from_chars(&chars_of(name)) }
}

/// A redacted path never contains a slash unless the whole path is made of
/// slashes: whatever it names, no parent segment survives redaction.
pub proof fn law_redaction_drops_parents(path: Seq<char>)
    requires
        file_name(path) is Some,
    ensures
        !redacted(path).contains('/'),
{
    crate::path::lemma_file_name_has_no_slash(path);
}

} // verus!
