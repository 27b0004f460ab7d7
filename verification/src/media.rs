//! Media type detection from file names.
//!
//! Supported images: JPEG, PNG, GIF, WEBP, TIFF, BMP, HEIC.
//! Supported videos: MP4, MKV, AVI, MOV, WEBM, FLV, M4V.

use vstd::prelude::*;

use crate::path::{extension, file_name, file_name_of, kept_segments_of, split_name};
use crate::text::{
    ascii_lower_seq, chars_ends_with, chars_equal, chars_in_list, chars_of, ends_with,
    seq_in_list, to_ascii_lowercase,
};

verus! {

/// Classification of a media file.
#[derive(Debug, Clone, Copy, PartialEq, Eq, Hash, Structural)]
pub enum MediaType {
    Image,
    Video,
}

/// Supported image extensions (lowercase).
pub const IMAGE_EXTENSIONS: [&'static str; 9] = [
    "jpg",
    "jpeg",
    "png",
    "gif",
    "webp",
    "tiff",
    "tif",
    "bmp",
    "heic",
];

/// Supported video extensions (lowercase).
pub const VIDEO_EXTENSIONS: [&'static str; 7] = ["mp4", "mkv", "avi", "mov", "webm", "flv", "m4v"];

/// File-name suffixes of in-progress downloads and editor backups.
pub const TEMP_FILE_SUFFIXES: [&'static str; 4] = [".crdownload", ".partial", ".swp", "~"];

/// The database name of a media type.
pub open spec fn media_type_name(t: MediaType) -> Seq<char> {
    match t {
        MediaType::Image => "image"@,
        MediaType::Video => "video"@,
    }
}

/// The media type whose database name is `s`.
pub open spec fn media_type_from_name(s: Seq<char>) -> Option<MediaType> {
    if s == "image"@ {
        Some(MediaType::Image)
    } else if s == "video"@ {
        Some(MediaType::Video)
    } else {
        None
    }
}

/// The classification of a path: by its extension, compared ignoring ASCII case.
pub open spec fn classify_spec(path: Seq<char>) -> Option<MediaType> {
    match extension(path) {
        Some(ext) => if seq_in_list(ascii_lower_seq(ext), IMAGE_EXTENSIONS@) {
            Some(MediaType::Image)
        } else if seq_in_list(ascii_lower_seq(ext), VIDEO_EXTENSIONS@) {
            Some(MediaType::Video)
        } else {
            None
        },
        None => None,
    }
}

/// A temporary or in-progress file: its name, lowercased in ASCII, ends with
/// one of the temp suffixes.
pub open spec fn is_temp_file_spec(path: Seq<char>) -> bool {
    match file_name(path) {
        Some(name) => exists|i: int|
            0 <= i < TEMP_FILE_SUFFIXES@.len() && ends_with(
                ascii_lower_seq(name),
                #[trigger] TEMP_FILE_SUFFIXES@[i]@,
            ),
        None => false,
    }
}

impl MediaType {
    /// Returns the string representation used for database storage.
    pub fn as_str(&self) -> (r: &'static str)
        ensures
            r@ == media_type_name(*self),
    {
        match self {
            MediaType::Image => "image",
            MediaType::Video => "video",
        }
    }

    /// Parses a media type from its database string representation.
    pub fn from_db_str(s: &str) -> (r: Option<MediaType>)
        ensures
            r == media_type_from_name(s@),
    {
        let chars = chars_of(s);
        let image = chars_of("image");
        let video = chars_of("video");
        if chars_equal(&chars, &image) {
            Some(MediaType::Image)
        } else if chars_equal(&chars, &video) {
            Some(MediaType::Video)
        } else {
            None
        }
    }
}

/// Reports whether `path` is a scanner-level temporary/in-progress file.
///
/// This filter is hardcoded and independent of the user's ignore rules: such
/// files never produce a media record or a scan error. Matching is on the whole
/// file name, so backup suffixes like `photo.jpg~` are caught as well as
/// download extensions like `movie.mp4.crdownload`.
pub fn is_temp_file(path: &str) -> (r: bool)
    ensures
        r == is_temp_file_spec(path@),
{
    let chars = chars_of(path);
    match file_name_of(&chars) {
        Some(name) => {
            let lower = to_ascii_lowercase(&name);
            let mut i: usize = 0;
            while i < TEMP_FILE_SUFFIXES.len()
                invariant
                    0 <= i <= TEMP_FILE_SUFFIXES@.len(),
                    lower@ == ascii_lower_seq(name@),
                    file_name(path@) == Some(name@),
                    forall|j: int|
                        0 <= j < i ==> !ends_with(lower@, #[trigger] TEMP_FILE_SUFFIXES@[j]@),
                decreases TEMP_FILE_SUFFIXES@.len() - i,
            {
                let suffix = chars_of(TEMP_FILE_SUFFIXES[i]);
                if chars_ends_with(&lower, &suffix) {
                    assert(suffix@ == TEMP_FILE_SUFFIXES@[i as int]@);
                    assert(ends_with(ascii_lower_seq(name@), TEMP_FILE_SUFFIXES@[i as int]@));
                    return true;
                }
                i += 1;
            }
            false
        },
        None => false,
    }
}

/// Classifies a file path as image, video, or unsupported.
///
/// Returns `None` for unsupported or extensionless files; an unsupported file
/// is simply skipped, not an error. Extension matching ignores ASCII case.
pub fn classify(path: &str) -> (r: Option<MediaType>)
    ensures
        r == classify_spec(path@),
{
    let chars = chars_of(path);
    match file_name_of(&chars) {
        Some(name) => {
            let (_, ext) = split_name(&name);
            match ext {
                Some(e) => {
                    let lower = to_ascii_lowercase(&e);
                    if chars_in_list(&lower, &IMAGE_EXTENSIONS) {
                        Some(MediaType::Image)
                    } else if chars_in_list(&lower, &VIDEO_EXTENSIONS) {
                        Some(MediaType::Video)
                    } else {
                        None
                    }
                },
                None => None,
            }
        },
        None => None,
    }
}

} // verus!
