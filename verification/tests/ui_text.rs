use vesper::display::{
    banner_priority, cell_width_for_zoom, format_duration, format_hms, group_title,
    indexing_progress_text, maintenance_event, media_type_label, offline_banner_title,
    page_after_hydration, page_after_query, parent_folder_name, remove_source_event,
    BannerPriority, BannerState, MainPage, MaintenanceAction,
};
use vesper::events::AppEvent;
use vesper::state::TagFilter;
use vesper::display::{ cell_accessible_label, dimensions_text, selection_count_text, video_clock_text, viewer_breadcrumb_text, viewer_position_text, };
use vesper::state::legacy_import_allowed;
use vesper::display::{scan_error_popover_content, tag_chips, viewer_duration_text, SCAN_ERROR_HELP};
use vesper::viewer_nav::{escape_action, EscapeAction};

#[test]
fn duration_formats_minutes_and_hours() {
    assert_eq!(format_duration(14), "0:14");
    assert_eq!(format_duration(42), "0:42");
    assert_eq!(format_duration(3661), "1:01:01");
}

#[test]
fn hms_formats_hours_and_minutes() {
    assert_eq!(format_hms(8), "0:08");
    assert_eq!(format_hms(74), "1:14");
    assert_eq!(format_hms(3661), "1:01:01");
}

#[test]
fn durations_at_the_hour_boundary() {
    assert_eq!(format_duration(0), "0:00");
    assert_eq!(format_duration(59), "0:59");
    assert_eq!(format_duration(60), "1:00");
    assert_eq!(format_duration(3599), "59:59");
    assert_eq!(format_duration(3600), "1:00:00");
    assert_eq!(format_duration(36000), "10:00:00");
}

#[test]
fn negative_durations_print_like_the_formatter() {
    // Rust's `/` and `%` truncate toward zero, so each part carries the sign.
    assert_eq!(format_duration(-5), "0:-5");
    assert_eq!(format_duration(-65), "-1:-5");
}

#[test]
fn media_type_label_uses_extension_and_kind() {
    assert_eq!(media_type_label("IMG_2048.jpg", false), "JPG image");
    assert_eq!(media_type_label("clip.MP4", true), "MP4 video");
    assert_eq!(media_type_label("noext", false), "image");
}

#[test]
fn media_type_label_without_extension_for_video() {
    assert_eq!(media_type_label("movie", true), "video");
    assert_eq!(media_type_label(".hidden", false), "image");
}

#[test]
fn parent_folder_is_immediate_directory() {
    assert_eq!(
        parent_folder_name("/media/photos/2023 Japan/IMG.jpg").as_deref(),
        Some("2023 Japan")
    );
}

#[test]
fn parent_folder_of_root_level_file_is_none() {
    assert_eq!(parent_folder_name("/IMG.jpg"), None);
    assert_eq!(parent_folder_name("IMG.jpg"), None);
    assert_eq!(parent_folder_name("a/b.jpg").as_deref(), Some("a"));
}

#[test]
fn banner_priority_orders_critical_offline_then_indexing() {
    let mut state = BannerState {
        indexing: true,
        ..BannerState::default()
    };
    assert_eq!(banner_priority(&state), BannerPriority::Indexing);
    state.offline = true;
    assert_eq!(banner_priority(&state), BannerPriority::Offline);
    state.critical = true;
    assert_eq!(banner_priority(&state), BannerPriority::Critical);
}

#[test]
fn no_condition_hides_the_banner() {
    assert_eq!(
        banner_priority(&BannerState::default()),
        BannerPriority::Hidden
    );
}

#[test]
fn five_thumbnail_sizes_increase_monotonically() {
    let widths: Vec<i32> = (0..5).map(cell_width_for_zoom).collect();
    assert!(widths.windows(2).all(|w| w[0] < w[1]));
}

#[test]
fn thumbnail_sizes_have_exact_widths_and_fall_back_to_medium() {
    let widths: Vec<i32> = (0..5).map(cell_width_for_zoom).collect();
    assert_eq!(widths, vec![150, 210, 280, 360, 460]);
    assert_eq!(cell_width_for_zoom(-3), 280);
    assert_eq!(cell_width_for_zoom(9), 280);
}

#[test]
fn maintenance_buttons_map_to_events() {
    assert!(matches!(
        maintenance_event(MaintenanceAction::Rescan),
        AppEvent::RescanRoots
    ));
    assert!(matches!(
        maintenance_event(MaintenanceAction::RegenerateThumbnails),
        AppEvent::RegenerateThumbnails
    ));
    assert!(matches!(
        maintenance_event(MaintenanceAction::RebuildIndex),
        AppEvent::RebuildLibraryIndex
    ));
}

#[test]
fn confirmed_root_removal_uses_stable_root_id() {
    assert!(matches!(
        remove_source_event(42),
        AppEvent::RemoveSourceRoot(42)
    ));
}

#[test]
fn main_page_follows_roots_and_results() {
    assert_eq!(page_after_hydration(false, 0), MainPage::Empty);
    assert_eq!(page_after_hydration(false, 3), MainPage::Empty);
    assert_eq!(page_after_hydration(true, 0), MainPage::NoResults);
    assert_eq!(page_after_hydration(true, 3), MainPage::Grid);
    assert_eq!(page_after_query(true, 2), Some(MainPage::Grid));
    assert_eq!(page_after_query(true, 0), Some(MainPage::NoResults));
    assert_eq!(page_after_query(false, 0), None);
}

#[test]
fn offline_banner_text_counts_roots_and_mentions_suspended_filters() {
    assert_eq!(offline_banner_title(0, true), None);
    assert_eq!(
        offline_banner_title(1, false).as_deref(),
        Some("1 source root is currently unavailable. Existing indexed items remain browsable.")
    );
    assert_eq!(
        offline_banner_title(3, true).as_deref(),
        Some(
            "3 source roots are currently unavailable. Existing indexed items remain browsable. \
             Filters from offline sources are temporarily unavailable."
        )
    );
}

#[test]
fn indexing_banner_counts_files() {
    assert_eq!(indexing_progress_text(0), "Indexing media… 0 files found");
    assert_eq!(indexing_progress_text(1250), "Indexing media… 1250 files found");
}

fn filter(root: i64, path: &str, name: &str) -> TagFilter {
    TagFilter {
        source_root_id: root,
        relative_folder_path: path.to_string(),
        display_name: name.to_string(),
    }
}

#[test]
fn group_title_is_library_or_selected_names() {
    assert_eq!(group_title(&[]), "Library");
    assert_eq!(group_title(&[filter(1, "Travel", "Travel")]), "Travel");
    assert_eq!(
        group_title(&[filter(1, "Travel", "Travel"), filter(2, "A/2023", "2023")]),
        "Travel, 2023"
    );
}

#[test]
fn small_viewer_and_selection_texts() {
    assert_eq!(selection_count_text(3), "Selected 3 items");
    assert_eq!(viewer_position_text(0, 12), "1 / 12");
    assert_eq!(viewer_breadcrumb_text(12), "Library  /  12 items");
    assert_eq!(dimensions_text(1920, 1080), "1920 × 1080");
    assert_eq!(cell_accessible_label(true, "clip.mp4"), "Video clip.mp4");
    assert_eq!(cell_accessible_label(false, "a.jpg"), "Image a.jpg");
    assert_eq!(video_clock_text(8, 3661), "0:08 / 1:01:01");
}

#[test]
fn legacy_state_imports_only_into_an_empty_store() {
    assert!(legacy_import_allowed(Some(true), Some(true)));
    assert!(!legacy_import_allowed(Some(true), Some(false)));
    assert!(!legacy_import_allowed(None, Some(true)));
    assert!(!legacy_import_allowed(Some(false), None));
}

#[test]
fn viewer_duration_row_shows_clock_or_unknown() {
    assert_eq!(viewer_duration_text(75), "1:15");
    assert_eq!(viewer_duration_text(3725), "1:02:05");
    assert_eq!(viewer_duration_text(0), "Unknown");
    assert_eq!(viewer_duration_text(-3), "Unknown");
}

#[test]
fn scan_error_popover_prefers_backend_warning() {
    let paths = vec!["/a/b.jpg".to_string(), "/a/c".to_string()];
    let (body, shown) = scan_error_popover_content(Some("Failed to scan directory: x".to_string()), paths.clone());
    assert_eq!(body, "Failed to scan directory: x");
    assert!(shown.is_empty());
    let (body, shown) = scan_error_popover_content(None, paths.clone());
    assert_eq!(body, SCAN_ERROR_HELP);
    assert_eq!(shown, paths);
}

#[test]
fn tag_chips_are_trimmed_and_non_empty() {
    assert_eq!(tag_chips("Travel, Japan ,  2023"), vec!["Travel", "Japan", "2023"]);
    assert_eq!(tag_chips(" , ,"), Vec::<String>::new());
    assert_eq!(tag_chips(""), Vec::<String>::new());
    assert_eq!(tag_chips("\u{3000}Kyoto\t"), vec!["Kyoto"]);
}

#[test]
fn escape_leaves_fullscreen_before_closing() {
    assert_eq!(escape_action(false, false), EscapeAction::NotHandled);
    assert_eq!(escape_action(true, true), EscapeAction::LeaveFullscreen);
    assert_eq!(escape_action(true, false), EscapeAction::Close);
}
