//! Decisions of the backend event loop.
//!
//! The loop itself receives events, runs scans and reads the database; the
//! state it keeps between events and the choices it makes on them live here:
//! duplicate subtree rescans are dropped while one for the same path is
//! pending, overlapping data fetches are coalesced, every hydration gets a
//! fresh generation, and the first hydration asks for one full rescan.

use vstd::prelude::*;

use crate::models::ScanErrorEntry;
use crate::roots::{string_in, string_in_exec};
use crate::text::{append_str, chars_of, string_from_chars};

verus! {

/// Shown when a new root equals, contains or lies inside an existing root.
pub const ROOT_OVERLAP_MESSAGE: &'static str =
    "This folder is already covered by an existing source directory.";

/// Category under which a failed scan is recorded.
pub const SCAN_FAILED_CATEGORY: &'static str = "scan-failed";

/// What the loop does on a data-fetch request.
#[derive(Debug, Clone, Copy, PartialEq, Eq, Structural)]
pub enum FetchDecision {
    /// A fetch is already running; this request is folded into it.
    Coalesced,
    /// Start a hydration stamped with `generation`; when `initial_rescan` is
    /// set, also ask for the one full rescan that follows the first hydration.
    Start { generation: u64, initial_rescan: bool },
}

/// State the backend loop keeps between events.
pub struct BackendLoopState {
    /// Paths with a subtree rescan scheduled or running.
    pub pending_subtree_scans: Vec<String>,
    /// Whether a hydration is running.
    pub fetch_in_progress: bool,
    /// Generation of the latest hydration.
    pub hydration_generation: u64,
    /// Whether the full rescan after the first hydration was requested.
    pub initial_scan_done: bool,
}

pub open spec fn pending_views(s: Seq<String>) -> Seq<Seq<char>> {
    s.map_values(|p: String| p@)
}

pub open spec fn no_duplicates(s: Seq<String>) -> bool {
    forall|i: int, j: int| 0 <= i < j < s.len() ==> (#[trigger] s[i])@ != (#[trigger] s[j])@
}

/// What a subtree-rescan request does to the loop state.
pub open spec fn request_outcome(
    before: BackendLoopState,
    path: String,
    start: bool,
    after: BackendLoopState,
) -> bool {
    &&& start == !before.is_pending(path@)
    &&& start ==> after.pending_subtree_scans@ == before.pending_subtree_scans@.push(path)
    &&& !start ==> after.pending_subtree_scans@ == before.pending_subtree_scans@
    &&& after.fetch_in_progress == before.fetch_in_progress
    &&& after.hydration_generation == before.hydration_generation
    &&& after.initial_scan_done == before.initial_scan_done
}

/// What the end of a subtree rescan does: the path is no longer pending, and
/// every other path keeps its state.
pub open spec fn finish_outcome(before: BackendLoopState, path: Seq<char>, after: BackendLoopState) -> bool {
    &&& !after.is_pending(path)
    &&& forall|p: Seq<char>| p != path ==> (after.is_pending(p) <==> before.is_pending(p))
    &&& after.fetch_in_progress == before.fetch_in_progress
    &&& after.hydration_generation == before.hydration_generation
    &&& after.initial_scan_done == before.initial_scan_done
}

/// What a data-fetch request does: coalesce into a running hydration, or start
/// the next generation (with the initial rescan the first time).
pub open spec fn fetch_outcome(before: BackendLoopState, d: FetchDecision, after: BackendLoopState) -> bool {
    if before.fetch_in_progress {
        d == FetchDecision::Coalesced && after == before
    } else {
        &&& d == (FetchDecision::Start {
            generation: (before.hydration_generation + 1) as u64,
            initial_rescan: !before.initial_scan_done,
        })
        &&& after.fetch_in_progress
        &&& after.hydration_generation == before.hydration_generation + 1
        &&& after.initial_scan_done
        &&& after.pending_subtree_scans == before.pending_subtree_scans
    }
}

/// What the end of a hydration does.
pub open spec fn fetch_finished(before: BackendLoopState, after: BackendLoopState) -> bool {
    &&& !after.fetch_in_progress
    &&& after.hydration_generation == before.hydration_generation
    &&& after.initial_scan_done == before.initial_scan_done
    &&& after.pending_subtree_scans == before.pending_subtree_scans
}

impl BackendLoopState {
    /// The pending rescans, as paths.
    pub open spec fn pending(&self) -> Seq<Seq<char>> {
        pending_views(self.pending_subtree_scans@)
    }

    pub open spec fn is_pending(&self, path: Seq<char>) -> bool {
        string_in(path, self.pending_subtree_scans@)
    }

    /// Well-formed: no path is pending twice.
    pub open spec fn wf(&self) -> bool {
        no_duplicates(self.pending_subtree_scans@)
    }

    /// The loop's state at startup.
    pub fn new() -> (s: Self)
        ensures
            s.wf(),
            s.pending_subtree_scans@.len() == 0,
            !s.fetch_in_progress,
            s.hydration_generation == 0,
            !s.initial_scan_done,
    {
        BackendLoopState {
            pending_subtree_scans: Vec::new(),
            fetch_in_progress: false,
            hydration_generation: 0,
            initial_scan_done: false,
        }
    }

    /// A subtree rescan of `path` was requested. Returns whether to start it:
    /// not when one for the same path is already pending, which avoids I/O
    /// storms for heavily modified directories.
    pub fn request_subtree_scan(&mut self, path: String) -> (start: bool)
        requires
            old(self).wf(),
        ensures
            final(self).wf(),
            request_outcome(*old(self), path, start, *final(self)),
    {
        if string_in_exec(path.as_str(), &self.pending_subtree_scans) {
            return false;
        }
        let ghost before = self.pending_subtree_scans@;
        self.pending_subtree_scans.push(path);
        proof {
            let after = self.pending_subtree_scans@;
            assert forall|i: int, j: int| 0 <= i < j < after.len() implies (#[trigger] after[i])@
                != (#[trigger] after[j])@ by {
                if j == after.len() - 1 {
                    assert(after[i] == before[i]);
                    assert(after[j] == path);
                } else {
                    assert(after[i] == before[i]);
                    assert(after[j] == before[j]);
                }
            }
        }
        true
    }

    /// The subtree rescan of `path` ended (finished, failed or could not be
    /// scheduled): a later request for it is accepted again.
    pub fn finish_subtree_scan(&mut self, path: &str)
        requires
            old(self).wf(),
        ensures
            final(self).wf(),
            finish_outcome(*old(self), path@, *final(self)),
    {
        let target = chars_of(path);
        let mut kept: Vec<String> = Vec::new();
        let mut i: usize = 0;
        let ghost old_list = self.pending_subtree_scans@;
        while i < self.pending_subtree_scans.len()
            invariant
                0 <= i <= self.pending_subtree_scans.len(),
                self.pending_subtree_scans@ == old_list,
                no_duplicates(old_list),
                target@ == path@,
                no_duplicates(kept@),
                forall|k: int| 0 <= k < kept@.len() ==> (#[trigger] kept@[k])@ != path@,
                forall|p: Seq<char>|
                    p != path@ ==> (string_in(p, kept@) <==> exists|k: int|
                        0 <= k < i && (#[trigger] old_list[k])@ == p),
                forall|p: Seq<char>|
                    string_in(p, kept@) ==> exists|k: int| 0 <= k < i && (#[trigger] old_list[k])@ == p,
            decreases self.pending_subtree_scans.len() - i,
        {
            let item = chars_of(self.pending_subtree_scans[i].as_str());
            if !crate::text::chars_equal(&item, &target) {
                let ghost before = kept@;
                let s = self.pending_subtree_scans[i].clone();
                kept.push(s);
                proof {
                    let after = kept@;
                    assert(after[after.len() - 1]@ == old_list[i as int]@);
                    assert forall|a: int, b: int| 0 <= a < b < after.len() implies (
                    #[trigger] after[a])@ != (#[trigger] after[b])@ by {
                        if b == after.len() - 1 {
                            assert(after[a] == before[a]);
                            assert(string_in(before[a]@, before));
                            let k = choose|k: int| 0 <= k < i && (#[trigger] old_list[k])@ == before[a]@;
                            assert(old_list[k]@ != old_list[i as int]@);
                        } else {
                            assert(after[a] == before[a]);
                            assert(after[b] == before[b]);
                        }
                    }
                    assert forall|p: Seq<char>| p != path@ implies (string_in(p, after) <==> exists|k: int|
                        0 <= k < i + 1 && (#[trigger] old_list[k])@ == p) by {
                        if string_in(p, after) {
                            let m = choose|m: int| 0 <= m < after.len() && (#[trigger] after[m])@ == p;
                            if m == after.len() - 1 {
                                assert(old_list[i as int]@ == p);
                            } else {
                                assert(after[m] == before[m]);
                                assert(string_in(p, before));
                            }
                        }
                        if exists|k: int| 0 <= k < i + 1 && (#[trigger] old_list[k])@ == p {
                            let k = choose|k: int| 0 <= k < i + 1 && (#[trigger] old_list[k])@ == p;
                            if k == i {
                                assert(after[after.len() - 1]@ == p);
                            } else {
                                assert(string_in(p, before));
                                let m = choose|m: int| 0 <= m < before.len() && (#[trigger] before[m])@ == p;
                                assert(after[m] == before[m]);
                            }
                        }
                    }
                    assert forall|p: Seq<char>| string_in(p, after) implies exists|k: int|
                        0 <= k < i + 1 && (#[trigger] old_list[k])@ == p by {
                        let m = choose|m: int| 0 <= m < after.len() && (#[trigger] after[m])@ == p;
                        if m == after.len() - 1 {
                            assert(old_list[i as int]@ == p);
                        } else {
                            assert(after[m] == before[m]);
                            assert(string_in(p, before));
                        }
                    }
                }
            } else {
                proof {
                    assert forall|p: Seq<char>| p != path@ implies (string_in(p, kept@) <==> exists|k: int|
                        0 <= k < i + 1 && (#[trigger] old_list[k])@ == p) by {
                        if exists|k: int| 0 <= k < i + 1 && (#[trigger] old_list[k])@ == p {
                            let k = choose|k: int| 0 <= k < i + 1 && (#[trigger] old_list[k])@ == p;
                            assert(k != i);
                        }
                    }
                }
            }
            i += 1;
        }
        self.pending_subtree_scans = kept;
        proof {
            assert forall|p: Seq<char>| p != path@ implies (self.is_pending(p) <==> string_in(p, old_list)) by {
                if string_in(p, old_list) {
                    let k = choose|k: int| 0 <= k < old_list.len() && (#[trigger] old_list[k])@ == p;
                    assert(0 <= k < i);
                }
            }
        }
    }

    /// A data fetch was requested.
    pub fn request_fetch(&mut self) -> (d: FetchDecision)
        requires
            old(self).hydration_generation < u64::MAX,
        ensures
            fetch_outcome(*old(self), d, *final(self)),
    {
        if self.fetch_in_progress {
            return FetchDecision::Coalesced;
        }
        self.fetch_in_progress = true;
        self.hydration_generation = self.hydration_generation + 1;
        let initial_rescan = !self.initial_scan_done;
        self.initial_scan_done = true;
        FetchDecision::Start { generation: self.hydration_generation, initial_rescan }
    }

    /// The running hydration ended: the next request starts a new one.
    pub fn finish_fetch(&mut self)
        ensures
            fetch_finished(*old(self), *final(self)),
    {
        self.fetch_in_progress = false;
    }
}

/// Two requests for one path with no end in between: the second is dropped.
/// Once the pending rescan ended, the next request for the path is accepted.
pub proof fn law_pending_rescan_dedup(
    s0: BackendLoopState,
    s1: BackendLoopState,
    s2: BackendLoopState,
    s3: BackendLoopState,
    s4: BackendLoopState,
    path: String,
    first: bool,
    second: bool,
    after_end: bool,
)
    requires
        s0.wf(),
        request_outcome(s0, path, first, s1),
        request_outcome(s1, path, second, s2),
        finish_outcome(s2, path@, s3),
        request_outcome(s3, path, after_end, s4),
    ensures
        !second,
        after_end,
{
    if first {
        assert(s1.pending_subtree_scans@[s1.pending_subtree_scans@.len() - 1] == path);
    }
}

/// While a hydration runs, further fetch requests are coalesced into it; the
/// next one after it ended starts a hydration with a newer generation, and
/// only the very first hydration asks for the initial full rescan.
pub proof fn law_fetch_coalescing(
    s0: BackendLoopState,
    s1: BackendLoopState,
    s2: BackendLoopState,
    s3: BackendLoopState,
    s4: BackendLoopState,
    d1: FetchDecision,
    d2: FetchDecision,
    d3: FetchDecision,
)
    requires
        !s0.fetch_in_progress,
        fetch_outcome(s0, d1, s1),
        fetch_outcome(s1, d2, s2),
        fetch_finished(s2, s3),
        fetch_outcome(s3, d3, s4),
    ensures
        d1 is Start,
        d2 == FetchDecision::Coalesced,
        d3 is Start,
        d3->generation > d1->generation,
        !d3->initial_rescan,
{
}

/// After one media chunk of `chunk_len` items was delivered at offset
/// `delivered`: the new offset, and whether to read another chunk. The
/// hydration stops at an empty or short chunk.
pub open spec fn hydration_step_spec(delivered: u64, chunk_len: u64, chunk_size: u64) -> (u64, bool) {
    ((delivered + chunk_len) as u64, chunk_len > 0 && chunk_len == chunk_size)
}

pub fn hydration_step(delivered: u64, chunk_len: u64, chunk_size: u64) -> (r: (u64, bool))
    requires
        delivered + chunk_len <= u64::MAX,
    ensures
        r == hydration_step_spec(delivered, chunk_len, chunk_size),
{
    (delivered + chunk_len, chunk_len > 0 && chunk_len == chunk_size)
}

pub open spec fn scan_failure_message_spec(scope: Seq<char>, cause: Seq<char>) -> Seq<char> {
    "Scan failed for "@ + scope + ": "@ + cause
}

/// The message a failed scan is surfaced with: it names the scope and the cause.
pub fn scan_failure_message(scope: &str, cause: &str) -> (r: String)
    ensures
        r@ == scan_failure_message_spec(scope@, cause@),
{
    let mut out: Vec<char> = chars_of("Scan failed for ");
    append_str(&mut out, scope);
    append_str(&mut out, ": ");
    append_str(&mut out, cause);
    string_from_chars(&out)
}

/// The record a failed scan leaves under its owning root, at the root's latest
/// scan generation.
pub fn scan_failure_entry(root_id: i64, scan_generation: i64, scope: &str, message: String) -> (r:
    ScanErrorEntry)
    ensures
        r.source_root_id == root_id,
        r.scan_generation == scan_generation,
        r.path@ == scope@,
        r.category@ == SCAN_FAILED_CATEGORY@,
        r.message == message,
{
    ScanErrorEntry {
        source_root_id: root_id,
        scan_generation,
        path: string_from_chars(&chars_of(scope)),
        category: string_from_chars(&chars_of(SCAN_FAILED_CATEGORY)),
        message,
    }
}

pub open spec fn add_root_failed_message_spec(display_path: Seq<char>) -> Seq<char> {
    "Failed to add directory: "@ + display_path
}

/// The message shown when storing a validated root failed.
pub fn add_root_failed_message(display_path: &str) -> (r: String)
    ensures
        r@ == add_root_failed_message_spec(display_path@),
{
    let mut out: Vec<char> = chars_of("Failed to add directory: ");
    append_str(&mut out, display_path);
    string_from_chars(&out)
}

} // verus!
