use vesper::events::QueryGeneration;
use vesper::media::{classify, is_temp_file, MediaType};

#[test]
fn stale_query_generation_result_is_discarded_when_newer_exists() {
    let mut tracker = QueryGeneration::default();

    // Two queries are dispatched in quick succession: the second supersedes
    // the first.
    let first = tracker.next();
    let second = tracker.next();
    assert_eq!((first, second), (1, 2));

    assert!(
        !tracker.is_current(first),
        "superseded result must be discarded"
    );
    assert!(tracker.is_current(second), "latest result must be applied");

    let third = tracker.next();
    assert!(!tracker.is_current(second));
    assert!(tracker.is_current(third));
}

#[test]
fn classifies_common_images() {
    assert_eq!(classify("photo.jpg"), Some(MediaType::Image));
    assert_eq!(classify("photo.JPEG"), Some(MediaType::Image));
    assert_eq!(classify("photo.png"), Some(MediaType::Image));
    assert_eq!(classify("photo.webp"), Some(MediaType::Image));
    assert_eq!(classify("photo.heic"), Some(MediaType::Image));
    assert_eq!(classify("photo.tiff"), Some(MediaType::Image));
    assert_eq!(classify("photo.tif"), Some(MediaType::Image));
    assert_eq!(classify("photo.bmp"), Some(MediaType::Image));
    assert_eq!(classify("photo.gif"), Some(MediaType::Image));
}

#[test]
fn classifies_common_videos() {
    assert_eq!(classify("video.mp4"), Some(MediaType::Video));
    assert_eq!(classify("video.MKV"), Some(MediaType::Video));
    assert_eq!(classify("video.webm"), Some(MediaType::Video));
    assert_eq!(classify("video.avi"), Some(MediaType::Video));
    assert_eq!(classify("video.mov"), Some(MediaType::Video));
    assert_eq!(classify("video.flv"), Some(MediaType::Video));
    assert_eq!(classify("video.m4v"), Some(MediaType::Video));
}

#[test]
fn rejects_unsupported_types() {
    assert_eq!(classify("readme.txt"), None);
    assert_eq!(classify("archive.zip"), None);
    assert_eq!(classify("document.pdf"), None);
    assert_eq!(classify("raw.cr2"), None);
}

#[test]
fn rejects_extensionless_files() {
    assert_eq!(classify("noext"), None);
    assert_eq!(classify(".hidden"), None);
}

#[test]
fn temp_and_partial_files_are_filtered() {
    for name in [
        "download.mp4.crdownload",
        "movie.mkv.partial",
        ".notes.txt.swp",
        "photo.jpg~",
        "PHOTO.JPG.CRDOWNLOAD",
    ] {
        assert!(is_temp_file(name), "{name} must be filtered as a temp file");
        assert!(is_temp_file(name), "{name} filter is stable across events");
    }
}

#[test]
fn real_media_is_not_treated_as_temp() {
    for name in ["photo.jpg", "clip.mp4", "still.PNG", "noext"] {
        assert!(!is_temp_file(name), "{name} is real media, not a temp file");
    }
}

#[test]
fn media_type_round_trips_through_its_database_name() {
    assert_eq!(MediaType::Image.as_str(), "image");
    assert_eq!(MediaType::Video.as_str(), "video");
    assert_eq!(MediaType::from_db_str("image"), Some(MediaType::Image));
    assert_eq!(MediaType::from_db_str("video"), Some(MediaType::Video));
    assert_eq!(MediaType::from_db_str("Image"), None);
    assert_eq!(MediaType::from_db_str(""), None);
}

#[test]
fn classification_follows_the_last_component_only() {
    assert_eq!(classify("/media/album.jpg/clip.mp4"), Some(MediaType::Video));
    assert_eq!(classify("/media/photos.jpg/"), Some(MediaType::Image));
    assert_eq!(classify("/media/.."), None);
    assert_eq!(classify("/"), None);
    assert_eq!(classify("archive.tar.JPG"), Some(MediaType::Image));
    assert_eq!(classify("trailing."), None);
}

#[test]
fn system_times_convert_to_epoch_milliseconds() {
    let epoch = std::time::UNIX_EPOCH;
    assert_eq!(vesper::models::system_time_to_epoch_millis(epoch), 0);
    let later = epoch + std::time::Duration::from_millis(1_700_000_123_456);
    assert_eq!(vesper::models::system_time_to_epoch_millis(later), 1_700_000_123_456);
    let before = epoch - std::time::Duration::from_secs(5);
    assert_eq!(vesper::models::system_time_to_epoch_millis(before), 0);
    assert_eq!(vesper::models::epoch_millis_from_duration(Some(u128::MAX)), i64::MAX);
}
