use std::hash::{Hash, Hasher};
use vesper::media::MediaType;
use vesper::models::{MediaEntry, TagIdentity};
use vesper::scan::{
    next_scan_generation, retain_existing_files, should_sweep_stale_media, ScanAccumulator,
    SCAN_BATCH_SIZE,
};
use vesper::tag_rows::LINEAGE_SEPARATOR;
use vesper::thumbnail::{
    cache_key_for, cache_key_from_digest, plan_disk_eviction, thumbnail_file_name, ThumbnailMemoryCache,
};
use vesper::viewer_nav::{close_target, next_index, prev_index};
use vesper::walker::{is_ignore_file_name, EntryDecision, EntryFacts, EntryKind, WalkState};

fn facts(path: &str, kind: Option<EntryKind>, symlink: bool, canonical: Option<&str>) -> EntryFacts {
    EntryFacts {
        path: path.to_string(),
        file_name: path.rsplit('/').next().unwrap().to_string(),
        is_symlink: symlink,
        kind,
        ignored: false,
        canonical: canonical.map(|c| c.to_string()),
    }
}

#[test]
fn file_symlink_pointing_outside_all_roots_is_rejected() {
    let roots = vec!["/lib/root".to_string()];
    let mut walk = WalkState::new("/lib/root".to_string());
    let real = facts("/lib/root/real.jpg", Some(EntryKind::File), false, None);
    let link = facts(
        "/lib/root/outside_link.jpg",
        Some(EntryKind::File),
        true,
        Some("/tmp/outside/target.jpg"),
    );
    assert_eq!(walk.decide(&real, &roots), EntryDecision::Index(MediaType::Image));
    assert_eq!(walk.decide(&link, &roots), EntryDecision::Skip);
    assert_eq!(walk.files_found, 1);
}

#[test]
fn file_symlink_and_its_target_yield_a_single_row() {
    let roots = vec!["/lib/root".to_string()];
    let mut walk = WalkState::new("/lib/root".to_string());
    let photo = facts("/lib/root/photo.jpg", Some(EntryKind::File), false, None);
    let alias = facts(
        "/lib/root/alias.jpg",
        Some(EntryKind::File),
        true,
        Some("/lib/root/photo.jpg"),
    );
    assert_eq!(walk.decide(&photo, &roots), EntryDecision::Index(MediaType::Image));
    assert_eq!(walk.decide(&alias, &roots), EntryDecision::Skip);
    assert_eq!(walk.files_found, 1);
    assert_eq!(walk.seen_files, vec!["/lib/root/photo.jpg".to_string()]);
}

#[test]
fn scan_does_not_follow_directory_symlinks_or_revisit_directories() {
    let roots = vec!["/lib/root".to_string()];
    let mut walk = WalkState::new("/lib/root".to_string());
    let linked_dir = facts("/lib/root/linked", Some(EntryKind::Directory), true, Some("/x"));
    assert_eq!(walk.decide(&linked_dir, &roots), EntryDecision::Skip);
    let sub = facts("/lib/root/sub", Some(EntryKind::Directory), false, Some("/lib/root/sub"));
    assert_eq!(walk.decide(&sub, &roots), EntryDecision::Descend);
    assert_eq!(walk.decide(&sub, &roots), EntryDecision::Skip);
    let back_to_root = facts("/lib/root/sub/up", Some(EntryKind::Directory), false, Some("/lib/root"));
    assert_eq!(walk.decide(&back_to_root, &roots), EntryDecision::Skip);
}

#[test]
fn walker_skips_ignored_temp_and_unsupported_entries() {
    let roots = vec!["/lib/root".to_string()];
    let mut walk = WalkState::new("/lib/root".to_string());
    let mut ignored = facts("/lib/root/a.jpg", Some(EntryKind::File), false, None);
    ignored.ignored = true;
    assert_eq!(walk.decide(&ignored, &roots), EntryDecision::Skip);
    let temp = facts("/lib/root/b.jpg.crdownload", Some(EntryKind::File), false, None);
    assert_eq!(walk.decide(&temp, &roots), EntryDecision::Skip);
    let text = facts("/lib/root/notes.txt", Some(EntryKind::File), false, None);
    assert_eq!(walk.decide(&text, &roots), EntryDecision::Skip);
    let rules = facts("/lib/root/.galleryignore", Some(EntryKind::File), false, None);
    assert_eq!(walk.decide(&rules, &roots), EntryDecision::Skip);
    assert!(is_ignore_file_name(".galleryignore"));
    assert!(!is_ignore_file_name("galleryignore"));
    let video = facts("/lib/root/clip.MKV", Some(EntryKind::File), false, None);
    assert_eq!(walk.decide(&video, &roots), EntryDecision::Index(MediaType::Video));
}

#[test]
fn unreadable_metadata_is_reported_for_plain_entries_only() {
    let roots = vec!["/lib/root".to_string()];
    let mut walk = WalkState::new("/lib/root".to_string());
    let plain = facts("/lib/root/a.jpg", None, false, None);
    assert_eq!(walk.decide(&plain, &roots), EntryDecision::ReportMetadataError);
    let broken_link = facts("/lib/root/b.jpg", None, true, None);
    assert_eq!(walk.decide(&broken_link, &roots), EntryDecision::Skip);
    assert!(!walk.partial);
    walk.record_read_error();
    assert!(walk.partial);
    assert!(!should_sweep_stale_media(walk.partial));
}

fn entry(path: &str) -> (MediaEntry, Vec<TagIdentity>) {
    (
        MediaEntry {
            path: path.to_string(),
            relative_path: "photo.jpg".into(),
            canonical_identity: path.to_string(),
            filename: "photo.jpg".into(),
            source_root_id: 1,
            media_type: MediaType::Image,
            size_bytes: 8,
            created_at: Some(1000),
            modified_at: 2000,
        },
        vec![TagIdentity {
            source_root_id: 1,
            relative_folder_path: "Photos".into(),
            display_name: "Photos".into(),
            display_path: "Photos".into(),
        }],
    )
}

#[test]
fn retain_existing_files_skips_entry_deleted_before_batch_commit() {
    let mut batch = vec![entry("/tmp/photo.jpg")];
    // The file was removed between discovery and the batch commit.
    let skipped = retain_existing_files(&mut batch, &[false]);
    assert_eq!(skipped, 1);
    assert!(batch.is_empty());
}

#[test]
fn retain_keeps_existing_entries_in_order() {
    let mut batch = vec![entry("/a.jpg"), entry("/b.jpg"), entry("/c.jpg")];
    let skipped = retain_existing_files(&mut batch, &[true, false, true]);
    assert_eq!(skipped, 1);
    let paths: Vec<&str> = batch.iter().map(|(e, _)| e.path.as_str()).collect();
    assert_eq!(paths, vec!["/a.jpg", "/c.jpg"]);
}

#[test]
fn scan_accumulator_batches_and_reports_failures() {
    let mut acc = ScanAccumulator::new(4, 12);
    let mut progress = Vec::new();
    for _ in 0..120 {
        if let Some(n) = acc.note_file_found() {
            progress.push(n);
        }
    }
    assert_eq!(progress, vec![50, 100]);
    let (e, tags) = entry("/m/a.jpg");
    assert!(!acc.add_to_batch(e, tags));
    let batch = acc.take_batch();
    assert_eq!(batch.len(), 1);
    acc.commit_failed(&batch, "disk full");
    acc.record_failure("/m/b.jpg".to_string(), "walk", "unreadable".to_string());
    let (result, errors) = acc.finish("/m".to_string(), 120, 3);
    assert_eq!(result.files_found, 120);
    assert_eq!(result.files_upserted, 0);
    assert_eq!(result.files_removed, 3);
    assert_eq!(result.failed_paths, vec!["/m/a.jpg".to_string(), "/m/b.jpg".to_string()]);
    assert_eq!(errors.len(), 2);
    assert_eq!(errors[0].category, "database");
    assert_eq!(errors[0].message, "disk full");
    assert_eq!(errors[0].source_root_id, 4);
    assert_eq!(errors[0].scan_generation, 12);
    assert_eq!(errors[1].category, "walk");
    assert_eq!(SCAN_BATCH_SIZE, 500);
}

#[test]
fn a_full_batch_is_due_for_commit() {
    let mut acc = ScanAccumulator::new(1, 1);
    let mut due = false;
    for i in 0..SCAN_BATCH_SIZE {
        let (e, t) = entry(&format!("/m/{i}.jpg"));
        due = acc.add_to_batch(e, t);
    }
    assert!(due);
    acc.commit_succeeded(SCAN_BATCH_SIZE);
    let (result, _) = acc.finish("/m".to_string(), 500, 0);
    assert_eq!(result.files_upserted, 500);
}

#[test]
fn a_new_scan_takes_the_next_generation() {
    assert_eq!(next_scan_generation(0), 1);
    assert_eq!(next_scan_generation(41), 42);
}

#[test]
fn cache_key_digest_is_sixteen_lowercase_hex_digits() {
    assert_eq!(cache_key_from_digest(0x1a2b), "0000000000001a2b");
    assert_eq!(cache_key_from_digest(u64::MAX), "ffffffffffffffff");
    assert_eq!(cache_key_from_digest(0), "0000000000000000");
}

#[test]
fn cache_key_matches_std_hashing_on_little_endian_machines() {
    if u16::from_ne_bytes([1, 0]) != 1 {
        return;
    }
    let mut h = std::collections::hash_map::DefaultHasher::new();
    "/media/a.jpg".hash(&mut h);
    "grid256".hash(&mut h);
    16i64.hash(&mut h);
    3000i64.hash(&mut h);
    assert_eq!(cache_key_for("/media/a.jpg", 16, 3000), format!("{:016x}", h.finish()));
}

#[test]
fn cache_key_is_stable_and_changes_with_content() {
    let key = cache_key_for("/media/a.jpg", 16, 3000);
    assert_eq!(key.len(), 16);
    assert!(key.chars().all(|c| c.is_ascii_hexdigit() && !c.is_ascii_uppercase()));
    assert_eq!(key, cache_key_for("/media/a.jpg", 16, 3000));
    assert_ne!(key, cache_key_for("/media/a.jpg", 16, 3001));
    assert_ne!(key, cache_key_for("/media/a.jpg", 17, 3000));
    assert_ne!(key, cache_key_for("/media/b.jpg", 16, 3000));
    assert_ne!(key, "/media/a.jpg");
    assert_eq!(thumbnail_file_name(&key), format!("{key}.jpg"));
}

#[test]
fn memory_cache_evicts_least_recently_used_unpinned() {
    let big = 200 * 1024 * 1024;
    let mut cache = ThumbnailMemoryCache::new();
    assert!(cache.begin_load(1, "a"));
    assert!(!cache.begin_load(1, "a"));
    let first = cache.insert(1, "a".to_string(), 256, 256, big);
    assert!(first.stored && first.evicted.is_empty());
    let second = cache.insert(2, "b".to_string(), 256, 256, big);
    assert!(second.stored);
    assert_eq!(second.evicted, vec![1]);
    assert!(!cache.get(1, "a"));
    assert!(cache.get(2, "b"));
    assert!(!cache.get(2, "other"));
}

#[test]
fn pinned_thumbnails_survive_eviction() {
    let big = 200 * 1024 * 1024;
    let mut cache = ThumbnailMemoryCache::new();
    cache.pin(1);
    cache.insert(1, "a".to_string(), 256, 256, big);
    let second = cache.insert(2, "b".to_string(), 256, 256, big);
    assert_eq!(second.evicted, vec![2]);
    assert!(cache.get(1, "a"));
    let oversized = cache.insert(3, "c".to_string(), u32::MAX, 1, 4);
    assert!(!oversized.stored);
    assert!(cache.unpin(1).is_empty());
}

#[test]
fn viewer_steps_wrap_past_unavailable_items() {
    let available = [true, false, true, false];
    assert_eq!(next_index(&available, 0), Some(2));
    assert_eq!(next_index(&available, 2), Some(0));
    assert_eq!(prev_index(&available, 0), Some(2));
    assert_eq!(next_index(&[false, false], 0), None);
    assert_eq!(next_index(&[true], 0), Some(0));
}

#[test]
fn closing_the_viewer_returns_to_the_nearest_available_item() {
    assert_eq!(close_target(&[true, true, true], 1), Some(1));
    assert_eq!(close_target(&[true, false, true], 1), Some(0));
    assert_eq!(close_target(&[false, false, true], 0), Some(2));
    assert_eq!(close_target(&[false, false], 1), None);
}

#[test]
fn lineage_separator_is_an_em_dash() {
    assert_eq!(LINEAGE_SEPARATOR, " — ");
}

#[test]
fn disk_cache_evicts_oldest_invisible_files_until_within_budget() {
    let entries = [(1, 400), (2, 300), (3, 200), (4, 100)];
    assert_eq!(plan_disk_eviction(&entries, &[], 1000), Vec::<i64>::new());
    assert_eq!(plan_disk_eviction(&entries, &[], 700), vec![1]);
    assert_eq!(plan_disk_eviction(&entries, &[1], 700), vec![2]);
    assert_eq!(plan_disk_eviction(&entries, &[1], 600), vec![2, 3]);
    assert_eq!(plan_disk_eviction(&entries, &[1, 2, 3, 4], 0), Vec::<i64>::new());
    assert_eq!(plan_disk_eviction(&[], &[], 0), Vec::<i64>::new());
}
