use vesper::models::TagIdentity;
use vesper::scan::{derive_tags, scan_error};

fn tag_pairs(tags: &[TagIdentity]) -> Vec<(&str, &str)> {
    tags.iter()
        .map(|t| (t.display_name.as_str(), t.relative_folder_path.as_str()))
        .collect()
}

#[test]
fn tags_from_nested_path() {
    let root = "/home/user/media";
    let file = "/home/user/media/Travel/Japan/2023/photo.jpg";
    let tags = derive_tags(file, root, 7, false);
    assert_eq!(
        tag_pairs(&tags),
        vec![
            ("Travel", "Travel"),
            ("Japan", "Travel/Japan"),
            ("2023", "Travel/Japan/2023"),
        ]
    );
    assert!(tags.iter().all(|t| t.source_root_id == 7));
}

#[test]
fn tags_empty_for_file_at_root() {
    assert!(derive_tags("/media/photo.jpg", "/media", 1, false).is_empty());
}

#[test]
fn tags_single_level() {
    assert_eq!(
        tag_pairs(&derive_tags("/media/Vacation/photo.jpg", "/media", 1, false)),
        vec![("Vacation", "Vacation")]
    );
}

#[test]
fn tags_empty_for_unrelated_path() {
    assert!(derive_tags("/other/photo.jpg", "/media", 1, false).is_empty());
}

#[test]
fn tags_with_root_as_tag() {
    let tags = derive_tags("/media/MyPhotos/Vacation/photo.jpg", "/media/MyPhotos", 3, true);
    assert_eq!(
        tag_pairs(&tags),
        vec![("MyPhotos", ""), ("Vacation", "Vacation")]
    );
    assert_eq!(tags[0].display_path, "MyPhotos");
}

#[test]
fn tag_lineage_carries_the_root_name() {
    let tags = derive_tags("/srv/Pictures/Travel/Japan/a.jpg", "/srv/Pictures", 2, false);
    let lineage: Vec<&str> = tags.iter().map(|t| t.display_path.as_str()).collect();
    assert_eq!(lineage, vec!["Pictures/Travel", "Pictures/Travel/Japan"]);
}

#[test]
fn tags_ignore_redundant_separators() {
    let tags = derive_tags("/media//Travel/./Japan/photo.jpg", "/media/", 1, false);
    assert_eq!(
        tag_pairs(&tags),
        vec![("Travel", "Travel"), ("Japan", "Travel/Japan")]
    );
}

#[test]
fn scan_error_carries_its_identity() {
    let e = scan_error(4, 9, "/media/bad.jpg".to_string(), "unreadable", "boom".to_string());
    assert_eq!(e.source_root_id, 4);
    assert_eq!(e.scan_generation, 9);
    assert_eq!(e.path, "/media/bad.jpg");
    assert_eq!(e.category, "unreadable");
    assert_eq!(e.message, "boom");
}

#[test]
fn root_as_tag_prepends_only_the_root_tag() {
    let file = "/home/user/media/Travel/Japan/a.jpg";
    let with_root = derive_tags(file, "/home/user/media", 7, true);
    let without = derive_tags(file, "/home/user/media", 7, false);
    assert_eq!(with_root.len(), without.len() + 1);
    assert_eq!(with_root[0].display_name, "media");
    assert_eq!(with_root[0].relative_folder_path, "");
    assert_eq!(with_root[0].display_path, "media");
    for (a, b) in with_root[1..].iter().zip(without.iter()) {
        assert_eq!(a.relative_folder_path, b.relative_folder_path);
        assert_eq!(a.display_name, b.display_name);
        assert_eq!(a.display_path, b.display_path);
    }
    assert!(derive_tags("/elsewhere/a.jpg", "/home/user/media", 7, true).is_empty());
}

#[test]
fn prepared_entry_carries_the_file_times_in_epoch_milliseconds() {
    let epoch = std::time::UNIX_EPOCH;
    let media = vesper::events::DiscoveredMedia {
        path: "/media/Trip/a.jpg".to_string(),
        media_type: vesper::media::MediaType::Image,
        size_bytes: 42,
        modified: epoch + std::time::Duration::from_millis(1_700_000_000_123),
        created: Some(epoch + std::time::Duration::from_millis(1_600_000_000_000)),
    };
    let (_, entry, _) = vesper::scan::prepare_file_entry(&media, "/media", 1, false, None);
    assert_eq!(entry.modified_at, 1_700_000_000_123);
    assert_eq!(entry.created_at, Some(1_600_000_000_000));
    let undated = vesper::events::DiscoveredMedia { created: None, ..media };
    let (_, entry, _) = vesper::scan::prepare_file_entry(&undated, "/media", 1, false, None);
    assert_eq!(entry.created_at, None);
}
