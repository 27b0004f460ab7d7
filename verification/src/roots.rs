//! Source-root decisions: which root owns a path, whether a new root overlaps
//! the library, what a liveness pass must change, and when a watcher event may
//! touch records.

use vstd::prelude::*;

use crate::models::SourceRoot;
use crate::path::{components, components_of, starts_with, strip_prefix, strip_prefix_of, views};
use crate::text::{chars_equal, chars_of, string_from_chars};

verus! {

/// Whether `path` lies at or below the root stored at `root`.
pub open spec fn owns(root: SourceRoot, path: Seq<char>) -> bool {
    starts_with(path, root.path@)
}

/// Depth of a root: the number of its path components.
pub open spec fn depth(root: SourceRoot) -> nat {
    components(root.path@).len()
}

pub(crate) fn path_within(path: &[char], root: &str) -> (r: bool)
    ensures
        r == starts_with(path@, root@),
{
    let root_chars = chars_of(root);
    match strip_prefix_of(path, &root_chars) {
        Some(_) => true,
        None => false,
    }
}

fn depth_of(root: &str) -> (d: usize)
    ensures
        d == components(root@).len(),
{
    let chars = chars_of(root);
    let comps = components_of(&chars);
    comps.len()
}

/// The first root (in list order) that owns `path`.
pub fn owning_root(roots: &[SourceRoot], path: &str) -> (r: Option<usize>)
    ensures
        match r {
            Some(i) => i < roots@.len() && owns(roots@[i as int], path@) && forall|j: int|
                0 <= j < i ==> !owns(#[trigger] roots@[j], path@),
            None => forall|j: int| 0 <= j < roots@.len() ==> !owns(#[trigger] roots@[j], path@),
        },
{
    let chars = chars_of(path);
    let mut i: usize = 0;
    while i < roots.len()
        invariant
            0 <= i <= roots.len(),
            chars@ == path@,
            forall|j: int| 0 <= j < i ==> !owns(#[trigger] roots@[j], path@),
        decreases roots.len() - i,
    {
        if path_within(&chars, roots[i].path.as_str()) {
            return Some(i);
        }
        i += 1;
    }
    None
}

/// The deepest root that owns `path` (the last one among equally deep
/// candidates, as `Iterator::max_by_key` picks).
pub fn deepest_owning_root(roots: &[SourceRoot], path: &str) -> (r: Option<usize>)
    ensures
        match r {
            Some(i) => {
                &&& i < roots@.len()
                &&& owns(roots@[i as int], path@)
                &&& forall|j: int|
                    0 <= j < roots@.len() && owns(#[trigger] roots@[j], path@) ==> depth(roots@[j])
                        <= depth(roots@[i as int])
                &&& forall|j: int|
                    i < j < roots@.len() && owns(#[trigger] roots@[j], path@) ==> depth(roots@[j])
                        < depth(roots@[i as int])
            },
            None => forall|j: int| 0 <= j < roots@.len() ==> !owns(#[trigger] roots@[j], path@),
        },
{
    let chars = chars_of(path);
    let mut best: Option<usize> = None;
    let mut best_depth: usize = 0;
    let mut i: usize = 0;
    while i < roots.len()
        invariant
            0 <= i <= roots.len(),
            chars@ == path@,
            match best {
                Some(b) => {
                    &&& b < i
                    &&& owns(roots@[b as int], path@)
                    &&& best_depth == depth(roots@[b as int])
                    &&& forall|j: int|
                        0 <= j < i && owns(#[trigger] roots@[j], path@) ==> depth(roots@[j])
                            <= best_depth
                    &&& forall|j: int|
                        b < j < i && owns(#[trigger] roots@[j], path@) ==> depth(roots@[j])
                            < best_depth
                },
                None => forall|j: int| 0 <= j < i ==> !owns(#[trigger] roots@[j], path@),
            },
        decreases roots.len() - i,
    {
        if path_within(&chars, roots[i].path.as_str()) {
            let d = depth_of(roots[i].path.as_str());
            match best {
                Some(_) => {
                    if d >= best_depth {
                        best = Some(i);
                        best_depth = d;
                    }
                },
                None => {
                    best = Some(i);
                    best_depth = d;
                },
            }
        }
        i += 1;
    }
    best
}

/// Whether a candidate root equals, contains, or lies within an existing root.
pub open spec fn overlaps(existing: Seq<SourceRoot>, candidate: Seq<char>) -> bool {
    exists|i: int|
        0 <= i < existing.len() && (starts_with(candidate, #[trigger] existing[i].path@)
            || starts_with(existing[i].path@, candidate))
}

/// Rejects duplicate, nested, and enclosing roots: the new canonical path must
/// not equal, be contained by, or contain any existing canonical root.
pub fn overlaps_existing(existing: &[SourceRoot], candidate: &str) -> (r: bool)
    ensures
        r == overlaps(existing@, candidate@),
{
    let cand = chars_of(candidate);
    let mut i: usize = 0;
    while i < existing.len()
        invariant
            0 <= i <= existing.len(),
            cand@ == candidate@,
            forall|j: int|
                0 <= j < i ==> !(starts_with(candidate@, #[trigger] existing@[j].path@)
                    || starts_with(existing@[j].path@, candidate@)),
        decreases existing.len() - i,
    {
        let root_chars = chars_of(existing[i].path.as_str());
        let inside = path_within(&cand, existing[i].path.as_str());
        let encloses = path_within(&root_chars, candidate);
        if inside || encloses {
            return true;
        }
        i += 1;
    }
    false
}

/// A watcher delete only says a path vanished, which also happens when the
/// whole root is unmounted. Records are removed only when the owning root is
/// confirmed online and the file is confirmed gone.
pub fn should_remove_deleted(root_online: bool, path_exists: bool) -> (r: bool)
    ensures
        r == (root_online && !path_exists),
{
    root_online && !path_exists
}

/// Commands to the liveness worker.
#[derive(Debug, Clone, Copy, PartialEq, Eq, Structural)]
pub enum LivenessCommand {
    /// Reconcile now: probe every root's availability, sync watchers to the
    /// online roots, persist availability changes and publish the offline count.
    Probe,
}

/// One root as a liveness pass sees it.
#[derive(Debug, Clone)]
pub struct RootProbe {
    pub id: i64,
    pub path: String,
    /// Availability as stored in the database.
    pub stored_available: bool,
    /// Availability just probed on the filesystem.
    pub probed_available: bool,
}

/// What one liveness pass must do.
#[derive(Debug, Clone)]
pub struct ReconcilePlan {
    /// Online roots not yet watched, to start watching.
    pub watch: Vec<String>,
    /// Watched paths that are no longer roots, to stop watching.
    pub unwatch: Vec<String>,
    /// Roots whose stored availability must change, with the new value.
    pub availability_changes: Vec<(i64, bool)>,
    /// Number of offline roots, for the status banner.
    pub offline_count: usize,
    /// Whether the UI must re-hydrate to show corrected availability.
    pub refetch: bool,
}

pub open spec fn string_in(s: Seq<char>, list: Seq<String>) -> bool {
    exists|i: int| 0 <= i < list.len() && (#[trigger] list[i])@ == s
}

pub open spec fn offline_count_spec(probes: Seq<RootProbe>) -> nat
    decreases probes.len(),
{
    if probes.len() == 0 {
        0
    } else {
        offline_count_spec(probes.drop_last()) + if probes.last().probed_available {
            0nat
        } else {
            1nat
        }
    }
}

/// The changes a plan must carry, in root order.
pub open spec fn availability_changes_spec(probes: Seq<RootProbe>) -> Seq<(i64, bool)>
    decreases probes.len(),
{
    if probes.len() == 0 {
        seq![]
    } else {
        let rest = availability_changes_spec(probes.drop_last());
        let p = probes.last();
        if p.stored_available != p.probed_available {
            rest.push((p.id, p.probed_available))
        } else {
            rest
        }
    }
}

/// Paths of probes that are online and not in `watched`, in root order.
pub open spec fn to_watch_spec(probes: Seq<RootProbe>, watched: Seq<String>) -> Seq<Seq<char>>
    decreases probes.len(),
{
    if probes.len() == 0 {
        seq![]
    } else {
        let rest = to_watch_spec(probes.drop_last(), watched);
        let p = probes.last();
        if p.probed_available && !string_in(p.path@, watched) {
            rest.push(p.path@)
        } else {
            rest
        }
    }
}

/// Watched paths that are no longer the path of any root, in watched order.
pub open spec fn to_unwatch_spec(probes: Seq<RootProbe>, watched: Seq<String>) -> Seq<Seq<char>>
    decreases watched.len(),
{
    if watched.len() == 0 {
        seq![]
    } else {
        let rest = to_unwatch_spec(probes, watched.drop_last());
        let w = watched.last();
        if exists|i: int| 0 <= i < probes.len() && (#[trigger] probes[i]).path@ == w@ {
            rest
        } else {
            rest.push(w@)
        }
    }
}

pub(crate) fn string_in_exec(s: &str, list: &[String]) -> (r: bool)
    ensures
        r == string_in(s@, list@),
{
    let target = chars_of(s);
    let mut i: usize = 0;
    while i < list.len()
        invariant
            0 <= i <= list.len(),
            target@ == s@,
            forall|j: int| 0 <= j < i ==> (#[trigger] list@[j])@ != s@,
        decreases list.len() - i,
    {
        let item = chars_of(list[i].as_str());
        if chars_equal(&item, &target) {
            return true;
        }
        i += 1;
    }
    false
}

/// Plans one liveness pass: watch newly online roots, unwatch removed roots,
/// persist availability changes, count offline roots, and ask for a
/// re-hydration exactly when some availability changed.
pub fn plan_reconcile(probes: &[RootProbe], watched: &[String]) -> (plan: ReconcilePlan)
    ensures
        crate::text::string_views(plan.watch@) == to_watch_spec(probes@, watched@),
        crate::text::string_views(plan.unwatch@) == to_unwatch_spec(probes@, watched@),
        plan.availability_changes@ == availability_changes_spec(probes@),
        plan.offline_count as nat == offline_count_spec(probes@),
        plan.refetch == (availability_changes_spec(probes@).len() > 0),
{
    let mut watch: Vec<String> = Vec::new();
    let mut changes: Vec<(i64, bool)> = Vec::new();
    let mut offline: usize = 0;
    let mut i: usize = 0;
    while i < probes.len()
        invariant
            0 <= i <= probes.len(),
            crate::text::string_views(watch@) == to_watch_spec(
                probes@.take(i as int),
                watched@,
            ),
            changes@ == availability_changes_spec(probes@.take(i as int)),
            offline as nat == offline_count_spec(probes@.take(i as int)),
            offline <= i,
        decreases probes.len() - i,
    {
        let ghost prefix = probes@.take(i as int);
        assert(probes@.take(i as int + 1).drop_last() == prefix);
        assert(probes@.take(i as int + 1).last() == probes@[i as int]);
        let p = &probes[i];
        if p.probed_available {
            if !string_in_exec(p.path.as_str(), watched) {
                let s = string_from_chars(&chars_of(p.path.as_str()));
                assert(crate::text::string_views(watch@.push(s)) =~= crate::text::string_views(
                    watch@,
                ).push(s@));
                watch.push(s);
            }
        } else {
            offline += 1;
        }
        if p.stored_available != p.probed_available {
            changes.push((p.id, p.probed_available));
        }
        i += 1;
    }
    assert(probes@.take(probes.len() as int) == probes@);
    let mut unwatch: Vec<String> = Vec::new();
    let mut k: usize = 0;
    while k < watched.len()
        invariant
            0 <= k <= watched.len(),
            crate::text::string_views(unwatch@) == to_unwatch_spec(
                probes@,
                watched@.take(k as int),
            ),
        decreases watched.len() - k,
    {
        assert(watched@.take(k as int + 1).drop_last() == watched@.take(k as int));
        assert(watched@.take(k as int + 1).last() == watched@[k as int]);
        let w = chars_of(watched[k].as_str());
        let mut found = false;
        let mut j: usize = 0;
        while j < probes.len()
            invariant
                0 <= j <= probes.len(),
                w@ == watched@[k as int]@,
                found == exists|m: int| 0 <= m < j && (#[trigger] probes@[m]).path@ == w@,
            decreases probes.len() - j,
        {
            let pc = chars_of(probes[j].path.as_str());
            if chars_equal(&pc, &w) {
                found = true;
            }
            j += 1;
        }
        if !found {
            let s = string_from_chars(&w);
            assert(crate::text::string_views(unwatch@.push(s)) =~= crate::text::string_views(
                unwatch@,
            ).push(s@));
            unwatch.push(s);
        }
        k += 1;
    }
    assert(watched@.take(watched.len() as int) == watched@);
    let refetch = changes.len() > 0;
    ReconcilePlan { watch, unwatch, availability_changes: changes, offline_count: offline, refetch }
}

} // verus!
