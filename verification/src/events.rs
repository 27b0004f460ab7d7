//! Typed events and DTOs that flow between the indexer, the database layer
//! and the UI.

use vstd::prelude::*;

use crate::media::MediaType;
use crate::state::{BackendState, TagFilter};

verus! {

/// Metadata about a discovered media file.
#[derive(Debug)]
pub struct DiscoveredMedia {
    /// Absolute path to the media file.
    pub path: String,
    /// Whether this is an image or video.
    pub media_type: MediaType,
    /// File size in bytes.
    pub size_bytes: u64,
    /// File modification time from the filesystem.
    pub modified: std::time::SystemTime,
    /// File creation time (not every Linux filesystem exposes it).
    pub created: Option<std::time::SystemTime>,
}

/// Events emitted by the filesystem scanner during indexing.
#[derive(Debug)]
pub enum ScanEvent {
    /// Scan of a source root has started.
    Started { root: String },
    /// A media file was discovered during the scan.
    FileFound(DiscoveredMedia),
    /// A non-fatal error occurred while scanning a specific path.
    Error { path: String, message: String },
    /// Scan of a source root completed successfully.
    Completed { root: String, total_found: u64 },
}

#[derive(Debug, Clone, Copy, PartialEq, Eq, Structural)]
pub enum TagMode {
    Any,
    All,
}

#[derive(Debug, Clone, Copy, PartialEq, Eq, Structural)]
pub enum SortOrder {
    DateModifiedDesc,
    DateModifiedAsc,
    DateAddedDesc,
    DateAddedAsc,
    FilenameAsc,
    FilenameDesc,
    FileSizeDesc,
    FileSizeAsc,
}

#[derive(Debug, Clone)]
pub struct MediaQuery {
    pub tags: Vec<TagFilter>,
    pub tag_mode: TagMode,
    pub search: Option<String>,
    pub sort: SortOrder,
}

/// Monotonic query-generation tracker.
///
/// Each dispatched search/filter/sort query is stamped with a strictly
/// increasing generation via [`Self::next`]. A result carries the generation of
/// the query that produced it; the UI applies it only if it is still the latest
/// ([`Self::is_current`]). A slow in-flight query that completes after a newer
/// one was issued is therefore discarded rather than overwriting newer state.
#[derive(Debug, Default, Clone)]
pub struct QueryGeneration {
    latest: u64,
}

impl QueryGeneration {
    /// The generation of the latest dispatched query (0 before any).
    pub closed spec fn latest(&self) -> u64 {
        self.latest
    }

    pub open spec fn is_current_spec(&self, generation: u64) -> bool {
        generation >= self.latest()
    }

    /// A tracker before any query was dispatched.
    pub fn new() -> (q: QueryGeneration)
        ensures
            q.latest() == 0,
    {
        QueryGeneration { latest: 0 }
    }

    /// The latest generation handed out.
    pub fn latest_generation(&self) -> (g: u64)
        ensures
            g == self.latest(),
    {
        self.latest
    }

    /// Allocates and records the next generation for a query about to be
    /// dispatched. The returned value becomes the current latest.
    pub fn next(&mut self) -> (g: u64)
        requires
            old(self).latest() < u64::MAX,
        ensures
            g == old(self).latest() + 1,
            final(self).latest() == g,
    {
        self.latest = self.latest + 1;
        self.latest
    }

    /// Whether a result stamped `generation` is still current and should be
    /// applied. A superseded result, one whose generation is older than the
    /// latest dispatched query, returns `false`.
    pub fn is_current(&self, generation: u64) -> (r: bool)
        ensures
            r == self.is_current_spec(generation),
    {
        generation >= self.latest
    }
}

/// Dispatching a query supersedes every result of an earlier query: once
/// `next` has handed out `issued`, that generation is current and every
/// generation handed out before it is stale.
pub proof fn law_newest_query_wins(
    before: QueryGeneration,
    after: QueryGeneration,
    issued: u64,
    earlier: u64,
)
    requires
        issued == before.latest() + 1,
        after.latest() == issued,
        earlier <= before.latest(),
    ensures
        after.is_current_spec(issued),
        !after.is_current_spec(earlier),
{
}

/// Events emitted by the UI to trigger backend operations.
#[derive(Debug)]
pub enum AppEvent {
    /// Request to add a source root path.
    AddSourceRoot(String),
    /// Request to remove a source root by ID.
    RemoveSourceRoot(i64),
    /// Request to update backend configuration settings.
    UpdateSettings(BackendState),
    /// Request to rescan all source roots.
    RescanRoots,
    /// Regenerate thumbnails whose source changed or whose prior generation failed.
    RegenerateThumbnails,
    /// Recreate derived index records, preserve roots/settings, and fully rescan.
    RebuildLibraryIndex,
    /// Request to fetch data (tags, media, roots) for the UI.
    FetchData,
    /// Request to rescan a subtree (e.g., due to `.galleryignore` changes).
    RescanSubtree(String),
    /// A single file was created, modified, or deleted.
    FileChanged(String, ChangeKind),
    /// Query media items with filter and sort; the `u64` is the query
    /// generation, echoed back with the result.
    QueryMedia(MediaQuery, u64),
    /// A virtualized grid cell began or stopped referencing this thumbnail.
    ThumbnailVisibility { media_id: i64, visible: bool },
    /// A visible cell read a thumbnail.
    ReadThumbnail { media_id: i64, path: String },
}

/// A decoded RGBA thumbnail prepared off the UI thread.
#[derive(Debug)]
pub struct DecodedThumbnail {
    pub media_id: i64,
    pub path: String,
    pub width: u32,
    pub height: u32,
    pub pixels: Vec<u8>,
}

/// The type of filesystem change for a media file.
#[derive(Debug, Clone, Copy, PartialEq, Eq, Structural)]
pub enum ChangeKind {
    Modified,
    Deleted,
}

/// A source root summary sent to the UI.
#[derive(Debug, Clone)]
pub struct UiSourceRoot {
    pub id: i64,
    pub name: String,
    pub path: String,
    pub display_path: String,
    pub is_available: bool,
}

/// A tag summary sent to the UI, carrying full path-qualified identity.
#[derive(Debug, Clone)]
pub struct UiTag {
    pub id: i64,
    pub source_root_id: i64,
    pub relative_folder_path: String,
    pub display_name: String,
    pub display_path: String,
    pub file_count: i64,
}

/// A fully prepared media item ready for the UI layer.
#[derive(Debug, Clone)]
pub struct UiMediaItem {
    pub id: i64,
    pub path: String,
    pub filename: String,
    pub tags: String,
    pub thumbnail_path: String,
    pub duration_secs: i64,
    pub media_type: MediaType,
    pub size_bytes: i64,
    pub created_at: Option<i64>,
    pub date_added: i64,
    pub modified_at: i64,
    /// Derived at fetch time because offline state is root-level.
    pub is_offline: bool,
}

} // verus!
