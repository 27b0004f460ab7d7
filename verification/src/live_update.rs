//! Decisions of the live-update path: which change events may index a file,
//! when a file being written counts as settled, and the bounded retry
//! schedule for files still being written.

use vstd::prelude::*;

use crate::events::ChangeKind;
use crate::text::string_views;
use crate::media::{classify, classify_spec, is_temp_file, is_temp_file_spec};
use crate::path::{strip_prefix, strip_prefix_of, views};
use crate::text::{append_chars, chars_of, string_from_chars};

verus! {

/// The pause between the two metadata reads that decide write-stability.
pub const STABILITY_WINDOW_MS: u64 = 250;

/// Backoff after an unstable probe: retry after 1s, then 5s, then 30s. If the
/// file never settles across this schedule, the change event is dropped.
pub const STABILITY_RETRY_BACKOFF_SECS: [u64; 3] = [1, 5, 30];

/// One metadata read of a file: its length and modification time (in
/// nanoseconds relative to the Unix epoch), when the platform reports one.
#[derive(Debug, Clone, Copy, PartialEq, Eq)]
pub struct FileSnapshot {
    pub len: u64,
    pub modified_nanos: Option<i128>,
}

pub open spec fn is_stable_spec(first: FileSnapshot, second: FileSnapshot) -> bool {
    &&& first.len == second.len
    &&& first.modified_nanos is Some
    &&& second.modified_nanos is Some
    &&& first.modified_nanos == second.modified_nanos
}

/// A file has come to rest when two reads a stability window apart agree on
/// length and on a known modification time. A file still being written, or
/// one whose modification time is unknown, is not stable.
pub fn is_stable(first: &FileSnapshot, second: &FileSnapshot) -> (r: bool)
    ensures
        r == is_stable_spec(*first, *second),
{
    let same_mtime = match (first.modified_nanos, second.modified_nanos) {
        (Some(a), Some(b)) => a == b,
        _ => false,
    };
    first.len == second.len && same_mtime
}

/// What to do after a probe.
#[derive(Debug, Clone, Copy, PartialEq, Eq, Structural)]
pub enum RetryAction {
    /// The file settled: index it.
    Index,
    /// Sleep this many seconds, then probe again.
    WaitSecs(u64),
    /// The retry budget is exhausted: drop the event.
    GiveUp,
}

pub open spec fn retry_action_spec(probes_made: nat, stable: bool) -> RetryAction {
    if stable {
        RetryAction::Index
    } else if probes_made >= 1 && probes_made - 1 < STABILITY_RETRY_BACKOFF_SECS@.len() {
        RetryAction::WaitSecs(STABILITY_RETRY_BACKOFF_SECS@[probes_made - 1])
    } else {
        RetryAction::GiveUp
    }
}

/// The retry decision after `probes_made` probes (the initial one included),
/// the last of which found the file `stable` or not.
pub fn retry_action(probes_made: usize, stable: bool) -> (r: RetryAction)
    requires
        probes_made >= 1,
    ensures
        r == retry_action_spec(probes_made as nat, stable),
{
    if stable {
        RetryAction::Index
    } else if probes_made - 1 < STABILITY_RETRY_BACKOFF_SECS.len() {
        RetryAction::WaitSecs(STABILITY_RETRY_BACKOFF_SECS[probes_made - 1])
    } else {
        RetryAction::GiveUp
    }
}

/// Total seconds slept before the `n`-th probe under the retry schedule.
pub open spec fn slept_before(n: nat) -> nat
    decreases n,
{
    if n <= 1 {
        0
    } else {
        slept_before((n - 1) as nat) + STABILITY_RETRY_BACKOFF_SECS@[n - 2] as nat
    }
}

/// A file that never settles is probed once and then once after each delay:
/// four probes, 1 + 5 + 30 seconds of waiting, and then the event is dropped.
pub proof fn law_retry_budget_is_bounded()
    ensures
        retry_action_spec(1, false) == RetryAction::WaitSecs(1),
        retry_action_spec(2, false) == RetryAction::WaitSecs(5),
        retry_action_spec(3, false) == RetryAction::WaitSecs(30),
        retry_action_spec(4, false) == RetryAction::GiveUp,
        forall|n: nat| n >= 4 ==> retry_action_spec(n, false) == RetryAction::GiveUp,
        slept_before(4) == 36,
        forall|n: nat| #![trigger retry_action_spec(n, true)] retry_action_spec(n, true)
            == RetryAction::Index,
{
    assert(STABILITY_RETRY_BACKOFF_SECS@[0] == 1);
    assert(slept_before(1) == 0);
    assert(slept_before(2) == 1);
    assert(slept_before(3) == 6);
}

/// How a create/modify event is first routed, before any metadata polling.
#[derive(Debug, Clone, Copy, PartialEq, Eq, Structural)]
pub enum ChangeRoute {
    /// A directory changed: rescan that subtree.
    RescanSubtree,
    /// A deletion: check the owning root and remove records if it is online.
    Delete,
    /// A temp/in-progress file or a non-media file: ignore the event.
    Ignore,
    /// A media file: run the stability probe, then index.
    ProbeAndIndex,
}

pub open spec fn route_change_spec(path: Seq<char>, kind: ChangeKind, is_dir: bool) -> ChangeRoute {
    if kind != ChangeKind::Deleted && is_dir {
        ChangeRoute::RescanSubtree
    } else if kind == ChangeKind::Deleted {
        ChangeRoute::Delete
    } else if is_temp_file_spec(path) {
        ChangeRoute::Ignore
    } else if classify_spec(path) is None {
        ChangeRoute::Ignore
    } else {
        ChangeRoute::ProbeAndIndex
    }
}

/// Routes a watcher event. The hardcoded temp-file filter runs before the
/// extension gate, and both before the stability probe, so an in-progress
/// download never yields a record or an error.
pub fn route_change(path: &str, kind: ChangeKind, is_dir: bool) -> (r: ChangeRoute)
    ensures
        r == route_change_spec(path@, kind, is_dir),
{
    let deleted = match kind {
        ChangeKind::Deleted => true,
        ChangeKind::Modified => false,
    };
    if !deleted && is_dir {
        ChangeRoute::RescanSubtree
    } else if deleted {
        ChangeRoute::Delete
    } else if is_temp_file(path) {
        ChangeRoute::Ignore
    } else if classify(path).is_none() {
        ChangeRoute::Ignore
    } else {
        ChangeRoute::ProbeAndIndex
    }
}

/// A temp file is never probed or indexed, however often it changes.
pub proof fn law_temp_files_never_indexed(path: Seq<char>, is_dir: bool)
    requires
        is_temp_file_spec(path),
        !is_dir,
    ensures
        route_change_spec(path, ChangeKind::Modified, is_dir) == ChangeRoute::Ignore,
{
}

/// `base` with `comp` appended as `PathBuf::push` does for a plain name: a
/// separator goes between them unless `base` is empty or already ends in one.
pub open spec fn pushed(base: Seq<char>, comp: Seq<char>) -> Seq<char> {
    if base.len() == 0 || base.last() == '/' {
        base + comp
    } else {
        base + seq!['/'] + comp
    }
}

pub open spec fn push_all(base: Seq<char>, parts: Seq<Seq<char>>) -> Seq<char>
    decreases parts.len(),
{
    if parts.len() == 0 {
        base
    } else {
        pushed(push_all(base, parts.drop_last()), parts.last())
    }
}

/// The folders between `root` and the folder holding `path`, relative to `root`.
pub open spec fn folders_below_root(path: Seq<char>, root: Seq<char>) -> Seq<Seq<char>> {
    match strip_prefix(path, root) {
        Some(rest) => if rest.len() > 0 {
            rest.drop_last()
        } else {
            rest
        },
        None => seq![],
    }
}

/// The directories whose `.galleryignore` applies to `path`, from the root down:
/// the root, then each folder on the way to the file's own folder.
pub open spec fn rule_dirs_spec(path: Seq<char>, root: Seq<char>) -> Seq<Seq<char>> {
    let parts = folders_below_root(path, root);
    Seq::new(parts.len() + 1, |k: int| push_all(root, parts.take(k)))
}

/// The directories whose ignore files are loaded, in order, before a changed
/// file under `root` is indexed.
pub fn ignore_rule_dirs(path: &str, root: &str) -> (r: Vec<String>)
    ensures
        string_views(r@) == rule_dirs_spec(path@, root@),
{
    let path_chars = chars_of(path);
    let root_chars = chars_of(root);
    let parts: Vec<Vec<char>> = match strip_prefix_of(&path_chars, &root_chars) {
        Some(rest) => {
            let mut rest = rest;
            if rest.len() > 0 {
                rest.pop();
            }
            rest
        },
        None => Vec::new(),
    };
    proof {
        assert(views(parts@) =~= folders_below_root(path@, root@));
    }
    let ghost goal = rule_dirs_spec(path@, root@);
    let mut current = root_chars;
    let mut dirs: Vec<String> = Vec::new();
    dirs.push(string_from_chars(&current));
    proof {
        assert(views(parts@).take(0) =~= Seq::<Seq<char>>::empty());
        assert(string_views(dirs@) =~= goal.take(1));
    }
    let mut i: usize = 0;
    while i < parts.len()
        invariant
            0 <= i <= parts@.len(),
            goal == rule_dirs_spec(path@, root@),
            goal.len() == parts@.len() + 1,
            views(parts@) == folders_below_root(path@, root@),
            current@ == push_all(root@, views(parts@).take(i as int)),
            string_views(dirs@) == goal.take(i as int + 1),
        decreases parts@.len() - i,
    {
        let ghost before = current@;
        if current.len() == 0 || current[current.len() - 1] == '/' {
            append_chars(&mut current, &parts[i]);
        } else {
            current.push('/');
            append_chars(&mut current, &parts[i]);
        }
        proof {
            assert(views(parts@).take(i as int + 1).drop_last() =~= views(parts@).take(i as int));
            assert(views(parts@).take(i as int + 1).last() == parts@[i as int]@);
            assert(current@ =~= pushed(before, parts@[i as int]@));
            assert(current@ == push_all(root@, views(parts@).take(i as int + 1)));
            assert(goal[i as int + 1] == current@);
        }
        let s = string_from_chars(&current);
        let ghost old_dirs = dirs@;
        dirs.push(s);
        proof {
            assert(string_views(dirs@) =~= string_views(old_dirs).push(s@));
            assert(string_views(dirs@) =~= goal.take(i as int + 2));
        }
        i += 1;
    }
    proof {
        assert(goal.take(parts@.len() as int + 1) =~= goal);
    }
    dirs
}

/// A file is stable only when both reads saw a known modification time and
/// the same length and time: a changed time, a changed length or an unknown
/// time each rule stability out, and an unchanged file with a known time is
/// stable.
pub proof fn law_stability_needs_unchanged_length_and_time(first: FileSnapshot, second: FileSnapshot)
    ensures
        first.modified_nanos != second.modified_nanos ==> !is_stable_spec(first, second),
        first.len != second.len ==> !is_stable_spec(first, second),
        first.modified_nanos is None ==> !is_stable_spec(first, second),
        first.modified_nanos is Some ==> is_stable_spec(first, first),
        is_stable_spec(first, second) == is_stable_spec(second, first),
{
}

} // verus!
