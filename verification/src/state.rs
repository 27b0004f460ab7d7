//! Persisted settings shared with the backend.

use vstd::prelude::*;

use crate::ignore_rules::default_global_patterns;

verus! {

/// A selected tag, by its full identity.
#[derive(Debug, Clone, PartialEq, Eq)]
pub struct TagFilter {
    pub source_root_id: i64,
    pub relative_folder_path: String,
    pub display_name: String,
}

/// Backend configuration: whether the root folder is itself a tag, and the
/// global ignore patterns.
#[derive(Debug, Clone)]
pub struct BackendState {
    pub root_as_tag: bool,
    pub global_ignore_rules: Vec<String>,
}

impl BackendState {
    /// First-launch settings: the root is not a tag, and the default global
    /// ignore patterns apply.
    pub fn default_state() -> (s: BackendState)
        ensures
            !s.root_as_tag,
            s.global_ignore_rules@.len() == crate::ignore_rules::DEFAULT_GLOBAL_PATTERNS@.len(),
            forall|i: int|
                0 <= i < s.global_ignore_rules@.len() ==> #[trigger] s.global_ignore_rules@[i]@
                    == crate::ignore_rules::DEFAULT_GLOBAL_PATTERNS@[i]@,
    {
        BackendState { root_as_tag: false, global_ignore_rules: default_global_patterns() }
    }
}

/// Whether the one-time import of the legacy state file may run: only into a
/// pristine store, where both persistence tables are known to be empty. A
/// table whose emptiness could not be read counts as not empty.
pub fn legacy_import_allowed(settings_empty: Option<bool>, session_empty: Option<bool>) -> (r: bool)
    ensures
        r == (settings_empty == Some(true) && session_empty == Some(true)),
{
    let settings = match settings_empty {
        Some(b) => b,
        None => false,
    };
    let session = match session_empty {
        Some(b) => b,
        None => false,
    };
    settings && session
}

} // verus!
