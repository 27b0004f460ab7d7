use std::cmp::Ordering;
use vesper::events::{SortOrder, TagMode, UiMediaItem, UiTag};
use vesper::media::MediaType;
use vesper::filter_state::{
    build_media_query, filter_controls, initial_sort_index, restore_selection, tag_filter,
    toggle_tag_selection,
};
use vesper::grid_order::{compare_grid_items, media_matches_filter};
use vesper::state::TagFilter;
use vesper::tag_rows::{prepare_tag_rows, sort_tags};

fn tag(root: i64, path: &str, name: &str, display_path: &str, count: i64) -> UiTag {
    UiTag {
        id: root * 100 + count,
        source_root_id: root,
        relative_folder_path: path.to_string(),
        display_name: name.to_string(),
        display_path: display_path.to_string(),
        file_count: count,
    }
}

#[test]
fn duplicate_tag_names_render_with_lineage_disambiguation() {
    let tags = [
        tag(1, "Travel/2023", "2023", "Travel / 2023", 4),
        tag(2, "Archive/2023", "2023", "Archive / 2023", 4),
    ];
    let rows = prepare_tag_rows(&tags, &[]);
    assert_eq!(rows.len(), 2);
    assert_eq!(rows[0].tag.display_name, "2023");
    assert_eq!(rows[0].lineage.as_deref(), Some("Travel / 2023"));
    assert_eq!(rows[1].lineage.as_deref(), Some("Archive / 2023"));
}

#[test]
fn tag_rows_sort_by_count_name_and_path_identity() {
    let tags = [
        tag(1, "Z/2023", "2023", "Z / 2023", 3),
        tag(1, "Travel", "travel", "Travel", 8),
        tag(1, "A/2023", "2023", "A / 2023", 3),
        tag(1, "Archive", "Archive", "Archive", 8),
    ];
    let rows = prepare_tag_rows(&tags, &[]);
    let order: Vec<(&str, i64)> = rows
        .iter()
        .map(|row| (row.tag.display_name.as_str(), row.tag.file_count))
        .collect();
    assert_eq!(
        order,
        [("Archive", 8), ("travel", 8), ("2023", 3), ("2023", 3)]
    );
    // Equal count and name: the relative folder path decides.
    assert_eq!(rows[2].tag.relative_folder_path, "A/2023");
    assert_eq!(rows[3].tag.relative_folder_path, "Z/2023");
}

#[test]
fn unique_names_carry_no_lineage() {
    let rows = prepare_tag_rows(&[tag(1, "Travel", "Travel", "Travel", 2)], &[]);
    assert_eq!(rows.len(), 1);
    assert_eq!(rows[0].lineage, None);
}

#[test]
fn equal_display_paths_add_the_root_path() {
    let tags = [
        tag(1, "2023", "2023", "2023", 5),
        tag(2, "2023", "2023", "2023", 5),
    ];
    let roots = vec![(1, "/media/a".to_string()), (2, "/media/b".to_string())];
    let rows = prepare_tag_rows(&tags, &roots);
    assert_eq!(rows[0].lineage.as_deref(), Some("2023 — /media/a"));
    assert_eq!(rows[1].lineage.as_deref(), Some("2023 — /media/b"));

    let rows = prepare_tag_rows(&tags, &[(1, "/media/a".to_string())]);
    assert_eq!(rows[1].lineage.as_deref(), Some("2023 — Unknown source"));
}

#[test]
fn tag_sort_breaks_ties_by_root_then_path() {
    let tags = [
        tag(2, "b", "x", "x", 1),
        tag(1, "c", "x", "x", 1),
        tag(1, "a", "x", "x", 1),
    ];
    let sorted = sort_tags(&tags);
    let keys: Vec<(i64, &str)> = sorted
        .iter()
        .map(|t| (t.source_root_id, t.relative_folder_path.as_str()))
        .collect();
    assert_eq!(keys, vec![(1, "a"), (1, "c"), (2, "b")]);
}

fn item(path: &str, filename: &str, tags: &str) -> UiMediaItem {
    UiMediaItem {
        id: 1,
        path: path.to_string(),
        filename: filename.to_string(),
        tags: tags.to_string(),
        thumbnail_path: String::new(),
        duration_secs: -1,
        media_type: MediaType::Image,
        size_bytes: 10,
        created_at: None,
        date_added: 0,
        modified_at: 0,
        is_offline: false,
    }
}

fn names(items: &[&str]) -> Vec<String> {
    items.iter().map(|s| s.to_string()).collect()
}

#[test]
fn tag_selection_matches_all_or_any() {
    let photo = item("/m/Travel/Japan/a.jpg", "a.jpg", "Travel,Japan");
    assert!(media_matches_filter(&[], false, "", &photo));
    assert!(media_matches_filter(&names(&["Travel", "Japan"]), true, "", &photo));
    assert!(!media_matches_filter(&names(&["Travel", "Work"]), true, "", &photo));
    assert!(media_matches_filter(&names(&["Travel", "Work"]), false, "", &photo));
    assert!(!media_matches_filter(&names(&["Work"]), false, "", &photo));
}

#[test]
fn search_matches_stem_path_or_tag_ignoring_case() {
    let photo = item("/m/Holidays/IMG_001.jpg", "IMG_001.jpg", "Travel");
    assert!(media_matches_filter(&[], false, "img_0", &photo));
    assert!(media_matches_filter(&[], false, "HOLIDAYS", &photo));
    assert!(media_matches_filter(&[], false, "trav", &photo));
    assert!(!media_matches_filter(&[], false, "beach", &photo));
    // The extension is not part of the stem, but the path still holds it.
    assert!(media_matches_filter(&[], false, ".jpg", &photo));
    let bare = item("x", "IMG_001.jpg", "");
    assert!(!media_matches_filter(&[], false, ".jpg", &bare));
}

#[test]
fn search_rank_orders_exact_name_then_tag_then_substring() {
    let exact = item("/m/japan.jpg", "japan.jpg", "");
    let tagged = item("/m/a.jpg", "a.jpg", "Japan Trip");
    let named = item("/m/my-japan.jpg", "my-japan.jpg", "");
    let other = item("/m/b.jpg", "b.jpg", "");
    assert_eq!(compare_grid_items(0, "Japan", &exact, &tagged), Ordering::Less);
    assert_eq!(compare_grid_items(0, "Japan", &tagged, &named), Ordering::Less);
    assert_eq!(compare_grid_items(0, "Japan", &named, &other), Ordering::Less);
    assert_eq!(compare_grid_items(0, "Japan", &other, &exact), Ordering::Greater);
}

#[test]
fn sort_options_order_by_their_key() {
    let mut a = item("/m/a.jpg", "a.jpg", "");
    let mut b = item("/m/B.jpg", "B.jpg", "");
    a.modified_at = 10;
    b.modified_at = 20;
    a.size_bytes = 5;
    b.size_bytes = 1;
    a.created_at = Some(3);
    b.created_at = None;
    assert_eq!(compare_grid_items(0, "", &a, &b), Ordering::Greater);
    assert_eq!(compare_grid_items(1, "", &a, &b), Ordering::Less);
    assert_eq!(compare_grid_items(2, "", &a, &b), Ordering::Less);
    assert_eq!(compare_grid_items(3, "", &a, &b), Ordering::Greater);
    assert_eq!(compare_grid_items(4, "", &a, &b), Ordering::Less);
    assert_eq!(compare_grid_items(5, "", &a, &b), Ordering::Greater);
    assert_eq!(compare_grid_items(6, "", &a, &b), Ordering::Less);
    assert_eq!(compare_grid_items(7, "", &a, &b), Ordering::Greater);
    assert_eq!(compare_grid_items(8, "", &a, &b), Ordering::Equal);
}

fn filter(root: i64, path: &str, name: &str) -> TagFilter {
    TagFilter {
        source_root_id: root,
        relative_folder_path: path.to_string(),
        display_name: name.to_string(),
    }
}

#[test]
fn toggling_a_tag_adds_once_and_removes_all() {
    let travel = filter(1, "Travel", "Travel");
    let work = filter(1, "Work", "Work");
    let selection = toggle_tag_selection(&vec![], &travel, true);
    assert_eq!(selection, vec![travel.clone()]);
    let selection = toggle_tag_selection(&selection, &travel, true);
    assert_eq!(selection, vec![travel.clone()]);
    let selection = toggle_tag_selection(&selection, &work, true);
    assert_eq!(selection, vec![travel.clone(), work.clone()]);
    let selection = toggle_tag_selection(&selection, &travel, false);
    assert_eq!(selection, vec![work]);
}

#[test]
fn restoring_persisted_filters_follows_row_order() {
    let tags = [
        tag(1, "Work", "Work", "Work", 3),
        tag(1, "Travel", "Travel", "Travel", 2),
    ];
    let persisted = vec![filter(1, "Travel", "Travel"), filter(1, "Work", "Work")];
    let restored = restore_selection(vec![], &tags, &persisted);
    assert_eq!(
        restored,
        vec![filter(1, "Work", "Work"), filter(1, "Travel", "Travel")]
    );
    let kept = restore_selection(vec![filter(9, "x", "x")], &tags, &vec![]);
    assert_eq!(kept, vec![filter(9, "x", "x")]);
}

#[test]
fn tag_rows_stand_for_their_full_identity() {
    let f = tag_filter(&tag(2, "Archive/2023", "2023", "Archive / 2023", 1));
    assert_eq!(f, filter(2, "Archive/2023", "2023"));
}

#[test]
fn the_query_carries_selection_mode_search_and_sort() {
    let selected = vec![filter(1, "Travel", "Travel")];
    let q = build_media_query(&selected, true, "", 4);
    assert_eq!(q.tags, selected);
    assert_eq!(q.tag_mode, TagMode::All);
    assert_eq!(q.search, None);
    assert_eq!(q.sort, SortOrder::FilenameAsc);
    let q = build_media_query(&vec![], false, "japan", 42);
    assert_eq!(q.tag_mode, TagMode::Any);
    assert_eq!(q.search.as_deref(), Some("japan"));
    assert_eq!(q.sort, SortOrder::FileSizeAsc);
}

#[test]
fn persisted_sort_labels_map_to_radio_indices() {
    assert_eq!(initial_sort_index("Date modified (newest first)"), 0);
    assert_eq!(initial_sort_index("Filename (Z → A)"), 5);
    assert_eq!(initial_sort_index("File size (smallest first)"), 7);
    assert_eq!(initial_sort_index("something else"), 0);
}

#[test]
fn clear_filters_control_counts_tags_and_search() {
    let hidden = filter_controls(0, false);
    assert!(!hidden.clear_visible && !hidden.match_mode_visible);
    assert_eq!(hidden.label, None);

    let search_only = filter_controls(0, true);
    assert!(search_only.clear_visible && !search_only.match_mode_visible);
    assert_eq!(search_only.label.as_deref(), Some("Clear filters (1)"));
    assert_eq!(search_only.description.as_deref(), Some("Clear search"));

    let one = filter_controls(1, true);
    assert_eq!(one.label.as_deref(), Some("Clear filters (2)"));
    assert_eq!(
        one.description.as_deref(),
        Some("Clear one tag filter and search")
    );

    let many = filter_controls(3, false);
    assert!(many.match_mode_visible);
    assert_eq!(many.label.as_deref(), Some("Clear filters (3)"));
    assert_eq!(many.description.as_deref(), Some("Clear 3 tag filters"));
}

#[test]
fn rows_tied_on_every_key_keep_input_order() {
    let mut a = tag(1, "x", "Same", "A", 3);
    a.id = 11;
    let mut b = tag(1, "x", "same", "B", 3);
    b.id = 22;
    let rows = prepare_tag_rows(&[a.clone(), b.clone()], &[]);
    assert_eq!(rows.iter().map(|r| r.tag.id).collect::<Vec<_>>(), vec![11, 22]);
    let rows = prepare_tag_rows(&[b, a], &[]);
    assert_eq!(rows.iter().map(|r| r.tag.id).collect::<Vec<_>>(), vec![22, 11]);
}
