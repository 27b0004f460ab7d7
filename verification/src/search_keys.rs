//! The keys search compares: texts in Unicode composed form (NFC), case-folded
//! between two compositions, and file names by their stem.

use vstd::prelude::*;

use unicode_normalization::UnicodeNormalization;

use crate::grid_order::display_stem;
use crate::path::{file_name_of, split_name};
use crate::text::{chars_of, copy_chars, string_from_chars};

verus! {

/// What `unicode_normalization`'s `nfc` yields for a string: its canonical
/// composition, which depends on the characters alone.
pub uninterp spec fn nfc_form(s: Seq<char>) -> Seq<char>;

/// The canonical composition (NFC) of `s`, through `UnicodeNormalization::nfc`.
#[verifier::external_body]
fn nfc_of(s: &str) -> (r: String)
    ensures
        r@ == nfc_form(s@),
{
    s.nfc().collect()
}

/// Composes a search text into NFC. Search keys are composed, case-folded,
/// then composed again, so that composed and decomposed spellings meet.
pub fn compose_search_text(s: &str) -> (r: String)
    ensures
        r@ == nfc_form(s@),
{
    nfc_of(s)
}

/// The part of a file name that base-name search looks at: its stem, or the
/// whole name when it has none.
pub fn search_basename(filename: &str) -> (r: String)
    ensures
        r@ == display_stem(filename@),
{
    let chars = chars_of(filename);
    match file_name_of(&chars) {
        Some(name) => {
            let (stem, _) = split_name(&name);
            string_from_chars(&stem)
        },
        None => string_from_chars(&copy_chars(&chars)),
    }
}

} // verus!
