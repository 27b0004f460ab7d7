//! Text and small decisions of the user interface: duration labels, media
//! type labels, thumbnail sizes, status banner priority, settings actions.

use vstd::prelude::*;

use crate::events::AppEvent;
use crate::state::TagFilter;
use crate::path::{
    components_of, extension, file_name_of, is_name_component, is_name_component_exec,
    parent_components, parent_folder_name as parent_folder_name_spec, split_name, views,
};
use crate::text::{
    append_chars, append_str, ascii_upper_seq, chars_of, copy_chars, decimal, decimal2,
    decimal2_chars, decimal_chars, split_chars, split_on, string_from_chars, string_views,
    to_ascii_uppercase, trim_chars, trimmed,
};

verus! {

/// The five thumbnail sizes, in zoom order 0..=4.
pub const THUMB_SIZE_LABELS: [&'static str; 5] = [
    "Extra Small",
    "Small",
    "Medium",
    "Large",
    "Extra Large",
];

/// Sort options in the order the radios are built; the strings match the
/// persisted `sort_order` values.
pub const SORT_ORDER_LABELS: [&'static str; 8] = [
    "Date modified (newest first)",
    "Date modified (oldest first)",
    "Date added (newest first)",
    "Date added (oldest first)",
    "Filename (A → Z)",
    "Filename (Z → A)",
    "File size (largest first)",
    "File size (smallest first)",
];

/// An integer as `{}` prints it.
pub open spec fn int_text(i: int) -> Seq<char> {
    if i < 0 {
        seq!['-'] + decimal((-i) as nat)
    } else {
        decimal(i as nat)
    }
}

/// An integer as `{:02}` prints it: zero-padded to two characters.
pub open spec fn int_text2(i: int) -> Seq<char> {
    if i < 0 {
        seq!['-'] + decimal((-i) as nat)
    } else {
        decimal2(i as nat)
    }
}

/// Whole seconds as `H:MM:SS` when there is at least an hour, else `M:SS`,
/// with Rust's truncating `/` and `%` (a negative count prints its negated
/// minute and second parts).
pub open spec fn clock_text(secs: int) -> Seq<char> {
    if secs >= 0 {
        let s = secs % 60;
        let m = (secs / 60) % 60;
        let h = secs / 3600;
        if h > 0 {
            decimal(h as nat) + seq![':'] + decimal2(m as nat) + seq![':'] + decimal2(s as nat)
        } else {
            decimal(m as nat) + seq![':'] + decimal2(s as nat)
        }
    } else {
        let a = -secs;
        int_text(-((a / 60) % 60)) + seq![':'] + int_text2(-(a % 60))
    }
}

pub(crate) fn int_chars(negative: bool, magnitude: u64) -> (r: Vec<char>)
    ensures
        r@ == (if negative {
            int_text(-(magnitude as int))
        } else {
            int_text(magnitude as int)
        }),
{
    if negative && magnitude > 0 {
        let mut r: Vec<char> = Vec::new();
        r.push('-');
        let d = decimal_chars(magnitude);
        append_chars(&mut r, &d);
        r
    } else {
        decimal_chars(magnitude)
    }
}

fn int2_chars(negative: bool, magnitude: u64) -> (r: Vec<char>)
    ensures
        r@ == (if negative {
            int_text2(-(magnitude as int))
        } else {
            int_text2(magnitude as int)
        }),
{
    if negative && magnitude > 0 {
        let mut r: Vec<char> = Vec::new();
        r.push('-');
        let d = decimal_chars(magnitude);
        append_chars(&mut r, &d);
        r
    } else {
        decimal2_chars(magnitude)
    }
}

fn clock_chars(secs: i64) -> (r: Vec<char>)
    ensures
        r@ == clock_text(secs as int),
{
    if secs >= 0 {
        let t = secs as u64;
        let s = t % 60;
        let m = (t / 60) % 60;
        let h = t / 3600;
        let mut out: Vec<char>;
        if h > 0 {
            out = decimal_chars(h);
            out.push(':');
            let mm = decimal2_chars(m);
            append_chars(&mut out, &mm);
        } else {
            out = decimal_chars(m);
        }
        out.push(':');
        let ss = decimal2_chars(s);
        append_chars(&mut out, &ss);
        out
    } else {
        let a: u64 = (0i128 - (secs as i128)) as u64;
        let m = (a / 60) % 60;
        let s = a % 60;
        let mut out = int_chars(true, m);
        out.push(':');
        let ss = int2_chars(true, s);
        append_chars(&mut out, &ss);
        out
    }
}

/// Formats a whole-second duration as `H:MM:SS` or `M:SS` (the grid badge).
pub fn format_duration(secs: i64) -> (r: String)
    ensures
        r@ == clock_text(secs as int),
{
    string_from_chars(&clock_chars(secs))
}

/// Formats whole seconds as `H:MM:SS` or `M:SS` (the viewer's video clock).
pub fn format_hms(secs: i64) -> (r: String)
    ensures
        r@ == clock_text(secs as int),
{
    string_from_chars(&clock_chars(secs))
}

/// Human media type from the file's extension and its kind, e.g.
/// `JPG image`; just the kind when there is no (or an empty) extension.
pub open spec fn media_type_label_spec(filename: Seq<char>, is_video: bool) -> Seq<char> {
    let kind = if is_video {
        "video"@
    } else {
        "image"@
    };
    match extension(filename) {
        Some(ext) => if ext.len() == 0 {
            kind
        } else {
            ascii_upper_seq(ext) + seq![' '] + kind
        },
        None => kind,
    }
}

pub fn media_type_label(filename: &str, is_video: bool) -> (r: String)
    ensures
        r@ == media_type_label_spec(filename@, is_video),
{
    let kind = if is_video {
        "video"
    } else {
        "image"
    };
    let chars = chars_of(filename);
    let ext = match file_name_of(&chars) {
        Some(name) => split_name(&name).1,
        None => None,
    };
    match ext {
        Some(e) => {
            if e.len() == 0 {
                string_from_chars(&chars_of(kind))
            } else {
                let mut out = to_ascii_uppercase(&e);
                out.push(' ');
                append_str(&mut out, kind);
                string_from_chars(&out)
            }
        },
        None => string_from_chars(&chars_of(kind)),
    }
}

/// Name of the folder directly containing `path`.
pub fn parent_folder_name(path: &str) -> (r: Option<String>)
    ensures
        match r {
            Some(s) => parent_folder_name_spec(path@) == Some(s@),
            None => parent_folder_name_spec(path@) is None,
        },
{
    let chars = chars_of(path);
    let comps = components_of(&chars);
    let n = comps.len();
    if n == 0 {
        return None;
    }
    let last_is_root = comps[n - 1].len() == 1 && comps[n - 1][0] == '/';
    assert(last_is_root == (views(comps@).last() == crate::path::root_marker())) by {
        if comps[n - 1].len() == 1 {
            assert(comps[n - 1]@ == seq![comps[n - 1]@[0]]);
        }
    }
    if last_is_root || n < 2 {
        return None;
    }
    assert(views(comps@).drop_last().last() == comps[n - 2]@);
    if is_name_component_exec(&comps[n - 2]) {
        Some(string_from_chars(&comps[n - 2]))
    } else {
        None
    }
}

/// Grid cell edge in pixels for each thumbnail size (index 0..=4); other
/// indices get the medium size.
pub open spec fn cell_width_spec(zoom: i32) -> i32 {
    if zoom == 0 {
        150
    } else if zoom == 1 {
        210
    } else if zoom == 2 {
        280
    } else if zoom == 3 {
        360
    } else if zoom == 4 {
        460
    } else {
        280
    }
}

pub fn cell_width_for_zoom(zoom: i32) -> (r: i32)
    ensures
        r == cell_width_spec(zoom),
{
    match zoom {
        0 => 150,
        1 => 210,
        2 => 280,
        3 => 360,
        4 => 460,
        _ => 280,
    }
}

/// The five thumbnail sizes grow strictly with the zoom index.
pub proof fn law_thumbnail_sizes_increase(a: i32, b: i32)
    requires
        0 <= a < b <= 4,
    ensures
        cell_width_spec(a) < cell_width_spec(b),
{
}

/// Which status banner the window shows.
#[derive(Clone, Copy, Debug, PartialEq, Eq, Structural)]
pub enum BannerPriority {
    Critical,
    Offline,
    Indexing,
    Hidden,
}

/// The conditions that may each want a status banner.
#[derive(Clone, Copy, Debug, Default)]
pub struct BannerState {
    pub critical: bool,
    pub offline: bool,
    pub indexing: bool,
}

pub open spec fn banner_priority_spec(state: BannerState) -> BannerPriority {
    if state.critical {
        BannerPriority::Critical
    } else if state.offline {
        BannerPriority::Offline
    } else if state.indexing {
        BannerPriority::Indexing
    } else {
        BannerPriority::Hidden
    }
}

/// A critical error outranks an offline root, which outranks indexing
/// progress; with none of them the banner is hidden.
pub fn banner_priority(state: &BannerState) -> (r: BannerPriority)
    ensures
        r == banner_priority_spec(*state),
{
    if state.critical {
        BannerPriority::Critical
    } else if state.offline {
        BannerPriority::Offline
    } else if state.indexing {
        BannerPriority::Indexing
    } else {
        BannerPriority::Hidden
    }
}

/// The maintenance buttons of the settings dialog.
#[derive(Debug, Clone, Copy, PartialEq, Eq, Structural)]
pub enum MaintenanceAction {
    Rescan,
    RegenerateThumbnails,
    RebuildIndex,
}

/// The backend request each maintenance button sends.
pub fn maintenance_event(action: MaintenanceAction) -> (e: AppEvent)
    ensures
        action == MaintenanceAction::Rescan ==> e is RescanRoots,
        action == MaintenanceAction::RegenerateThumbnails ==> e is RegenerateThumbnails,
        action == MaintenanceAction::RebuildIndex ==> e is RebuildLibraryIndex,
{
    match action {
        MaintenanceAction::Rescan => AppEvent::RescanRoots,
        MaintenanceAction::RegenerateThumbnails => AppEvent::RegenerateThumbnails,
        MaintenanceAction::RebuildIndex => AppEvent::RebuildLibraryIndex,
    }
}

/// The request sent once removal of a root is confirmed: by its stable id.
pub fn remove_source_event(root_id: i64) -> (e: AppEvent)
    ensures
        e == AppEvent::RemoveSourceRoot(root_id),
{
    AppEvent::RemoveSourceRoot(root_id)
}

/// Which page the main area shows.
#[derive(Debug, Clone, Copy, PartialEq, Eq, Structural)]
pub enum MainPage {
    /// No source root yet: the welcome page.
    Empty,
    /// Roots exist but nothing matches.
    NoResults,
    /// The media grid.
    Grid,
}

/// The page after a hydration published `item_count` items.
pub fn page_after_hydration(has_roots: bool, item_count: usize) -> (p: MainPage)
    ensures
        !has_roots ==> p == MainPage::Empty,
        has_roots && item_count == 0 ==> p == MainPage::NoResults,
        has_roots && item_count > 0 ==> p == MainPage::Grid,
{
    if !has_roots {
        MainPage::Empty
    } else if item_count == 0 {
        MainPage::NoResults
    } else {
        MainPage::Grid
    }
}

/// The page after a query result: the grid when it has items, the no-results
/// page when it has none and roots exist, and no change otherwise.
pub fn page_after_query(has_roots: bool, item_count: usize) -> (p: Option<MainPage>)
    ensures
        item_count > 0 ==> p == Some(MainPage::Grid),
        item_count == 0 && has_roots ==> p == Some(MainPage::NoResults),
        item_count == 0 && !has_roots ==> p is None,
{
    if item_count > 0 {
        Some(MainPage::Grid)
    } else if has_roots {
        Some(MainPage::NoResults)
    } else {
        None
    }
}

pub open spec fn offline_title_spec(count: nat, filters_suspended: bool) -> Option<Seq<char>> {
    if count == 0 {
        None
    } else {
        let head = if count == 1 {
            "1 source root is currently unavailable. Existing indexed items remain browsable."@
        } else {
            decimal(count)
                + " source roots are currently unavailable. Existing indexed items remain browsable."@
        };
        Some(
            if filters_suspended {
                head + " Filters from offline sources are temporarily unavailable."@
            } else {
                head
            },
        )
    }
}

/// The offline banner's text for `count` unavailable roots; `None` hides it.
pub fn offline_banner_title(count: u64, filters_suspended: bool) -> (r: Option<String>)
    ensures
        match r {
            Some(t) => offline_title_spec(count as nat, filters_suspended) == Some(t@),
            None => offline_title_spec(count as nat, filters_suspended) is None,
        },
{
    if count == 0 {
        return None;
    }
    let mut text: Vec<char> = if count == 1 {
        chars_of("1 source root is currently unavailable. Existing indexed items remain browsable.")
    } else {
        let mut t = decimal_chars(count);
        append_str(
            &mut t,
            " source roots are currently unavailable. Existing indexed items remain browsable.",
        );
        t
    };
    if filters_suspended {
        append_str(&mut text, " Filters from offline sources are temporarily unavailable.");
    }
    Some(string_from_chars(&text))
}

pub open spec fn indexing_text_spec(count: nat) -> Seq<char> {
    "Indexing media… "@ + decimal(count) + " files found"@
}

/// The indexing banner's text while a scan has found `count` files.
pub fn indexing_progress_text(count: u64) -> (r: String)
    ensures
        r@ == indexing_text_spec(count as nat),
{
    let mut text = chars_of("Indexing media… ");
    let digits = decimal_chars(count);
    append_chars(&mut text, &digits);
    append_str(&mut text, " files found");
    string_from_chars(&text)
}

/// The selected tags' display names joined by ", ".
pub open spec fn joined_names(filters: Seq<TagFilter>) -> Seq<char>
    decreases filters.len(),
{
    if filters.len() == 0 {
        seq![]
    } else if filters.len() == 1 {
        filters[0].display_name@
    } else {
        joined_names(filters.drop_last()) + ", "@ + filters.last().display_name@
    }
}

pub open spec fn group_title_spec(filters: Seq<TagFilter>) -> Seq<char> {
    if filters.len() == 0 {
        "Library"@
    } else {
        joined_names(filters)
    }
}

/// The grid's heading: "Library" with no tag selected, else the selected names.
pub fn group_title(selected: &[TagFilter]) -> (r: String)
    ensures
        r@ == group_title_spec(selected@),
{
    if selected.len() == 0 {
        return string_from_chars(&chars_of("Library"));
    }
    let mut text = chars_of(selected[0].display_name.as_str());
    let mut i: usize = 1;
    proof {
        assert(selected@.take(1).drop_last() =~= seq![]);
    }
    while i < selected.len()
        invariant
            1 <= i <= selected@.len(),
            text@ == joined_names(selected@.take(i as int)),
        decreases selected@.len() - i,
    {
        proof {
            assert(selected@.take(i as int + 1).drop_last() =~= selected@.take(i as int));
        }
        append_str(&mut text, ", ");
        append_str(&mut text, selected[i].display_name.as_str());
        i += 1;
    }
    proof {
        assert(selected@.take(selected@.len() as int) =~= selected@);
    }
    string_from_chars(&text)
}

/// The selection bar's count text.
pub fn selection_count_text(count: u64) -> (r: String)
    ensures
        r@ == "Selected "@ + decimal(count as nat) + " items"@,
{
    let mut text = chars_of("Selected ");
    append_chars(&mut text, &decimal_chars(count));
    append_str(&mut text, " items");
    string_from_chars(&text)
}

/// The viewer's position pill: the 1-based position of `index` among `total`.
pub fn viewer_position_text(index: u64, total: u64) -> (r: String)
    requires
        index < u64::MAX,
    ensures
        r@ == decimal((index + 1) as nat) + " / "@ + decimal(total as nat),
{
    let mut text = decimal_chars(index + 1);
    append_str(&mut text, " / ");
    append_chars(&mut text, &decimal_chars(total));
    string_from_chars(&text)
}

/// The viewer's breadcrumb for a library of `total` items.
pub fn viewer_breadcrumb_text(total: u64) -> (r: String)
    ensures
        r@ == "Library  /  "@ + decimal(total as nat) + " items"@,
{
    let mut text = chars_of("Library  /  ");
    append_chars(&mut text, &decimal_chars(total));
    append_str(&mut text, " items");
    string_from_chars(&text)
}

/// An image's pixel dimensions, as the info panel shows them.
pub fn dimensions_text(width: u32, height: u32) -> (r: String)
    ensures
        r@ == decimal(width as nat) + " × "@ + decimal(height as nat),
{
    let mut text = decimal_chars(width as u64);
    append_str(&mut text, " × ");
    append_chars(&mut text, &decimal_chars(height as u64));
    string_from_chars(&text)
}

/// The accessible label of a grid cell: its kind and file name.
pub fn cell_accessible_label(is_video: bool, filename: &str) -> (r: String)
    ensures
        r@ == (if is_video {
            "Video "@
        } else {
            "Image "@
        }) + filename@,
{
    let mut text = if is_video {
        chars_of("Video ")
    } else {
        chars_of("Image ")
    };
    append_str(&mut text, filename);
    string_from_chars(&text)
}

/// The video clock: elapsed and total time, each as `format_hms` prints it.
pub fn video_clock_text(elapsed_secs: i64, total_secs: i64) -> (r: String)
    ensures
        r@ == clock_text(elapsed_secs as int) + " / "@ + clock_text(total_secs as int),
{
    let mut text = clock_chars(elapsed_secs);
    append_str(&mut text, " / ");
    append_chars(&mut text, &clock_chars(total_secs));
    string_from_chars(&text)
}

/// The viewer's duration row: the clock for a known positive duration,
/// `Unknown` otherwise.
pub fn viewer_duration_text(duration_secs: i64) -> (r: String)
    ensures
        r@ == if duration_secs > 0 {
            clock_text(duration_secs as int)
        } else {
            "Unknown"@
        },
{
    if duration_secs > 0 {
        format_hms(duration_secs)
    } else {
        string_from_chars(&chars_of("Unknown"))
    }
}

/// Body of the scan-error popover when no backend warning is pending.
pub const SCAN_ERROR_HELP: &'static str =
    "Vesper couldn't access a few files or folders. They may be offline, unsupported, or require permissions.";

/// What the scan-error popover shows: a pending backend warning alone, or the
/// general explanation followed by the paths that failed.
pub fn scan_error_popover_content(warning: Option<String>, error_paths: Vec<String>) -> (r: (
    String,
    Vec<String>,
))
    ensures
        match warning {
            Some(m) => r.0 == m && r.1@.len() == 0,
            None => r.0@ == SCAN_ERROR_HELP@ && r.1 == error_paths,
        },
{
    match warning {
        Some(m) => (m, Vec::new()),
        None => (string_from_chars(&chars_of(SCAN_ERROR_HELP)), error_paths),
    }
}

/// The chips shown for a comma-separated tag list: every piece trimmed, the
/// empty ones left out.
pub open spec fn chip_list(pieces: Seq<Seq<char>>) -> Seq<Seq<char>>
    decreases pieces.len(),
{
    if pieces.len() == 0 {
        seq![]
    } else {
        let before = chip_list(pieces.drop_last());
        let t = trimmed(pieces.last());
        if t.len() > 0 {
            before.push(t)
        } else {
            before
        }
    }
}

/// Splits the viewer's tag text into chip labels.
pub fn tag_chips(tags: &str) -> (r: Vec<String>)
    ensures
        string_views(r@) == chip_list(split_on(tags@, ',')),
{
    let pieces = split_chars(&chars_of(tags), ',');
    let ghost all = views(pieces@);
    let mut r: Vec<String> = Vec::new();
    let mut i: usize = 0;
    while i < pieces.len()
        invariant
            0 <= i <= pieces@.len(),
            all == views(pieces@),
            string_views(r@) == chip_list(all.take(i as int)),
        decreases pieces@.len() - i,
    {
        assert(all.take(i as int + 1).drop_last() =~= all.take(i as int));
        assert(all.take(i as int + 1).last() == pieces@[i as int]@);
        let t = trim_chars(&pieces[i]);
        if t.len() > 0 {
            let s = string_from_chars(&t);
            let ghost before = r@;
            r.push(s);
            assert(string_views(r@) =~= string_views(before).push(s@));
        }
        i += 1;
    }
    assert(all.take(pieces@.len() as int) =~= all);
    r
}

} // verus!
