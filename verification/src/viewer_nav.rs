//! Navigation of the media viewer over the snapshot it captured when it
//! opened.
//!
//! The viewer steps through a stable list of media identities; an entry may
//! have become unavailable (filtered out or removed) since. `available[i]`
//! says whether snapshot entry `i` can still be shown.

use vstd::prelude::*;

verus! {

/// Snapshot index `k` steps after `start`, wrapping around.
pub open spec fn step_forward(start: int, k: int, len: int) -> int {
    (start + k) % len
}

/// Snapshot index `k` steps before `start`, wrapping around, as the viewer
/// computes it: `(start + len - (k % len)) % len`.
pub open spec fn step_backward(start: int, k: int, len: int) -> int {
    (start + len - (k % len)) % len
}

pub open spec fn step_at(start: int, k: int, len: int, forward: bool) -> int {
    if forward {
        step_forward(start, k, len)
    } else {
        step_backward(start, k, len)
    }
}

pub open spec fn first_available(
    available: Seq<bool>,
    start: int,
    forward: bool,
    r: Option<usize>,
) -> bool {
    let len = available.len() as int;
    match r {
        Some(idx) => exists|k: int|
            1 <= k <= len && idx as int == #[trigger] step_at(start, k, len, forward)
                && available[idx as int] && forall|k2: int|
                1 <= k2 < k ==> !available[#[trigger] step_at(start, k2, len, forward)],
        None => forall|k: int|
            1 <= k <= len ==> !available[#[trigger] step_at(start, k, len, forward)],
    }
}

/// The next available snapshot entry after `start`, wrapping around (the
/// start entry itself last); `None` when no entry is available.
pub fn next_index(available: &[bool], start: usize) -> (r: Option<usize>)
    requires
        start <= usize::MAX - available@.len(),
    ensures
        first_available(available@, start as int, true, r),
{
    let len = available.len();
    if len == 0 {
        return None;
    }
    let mut k: usize = 0;
    while k < len
        invariant
            0 <= k <= len,
            len == available@.len(),
            start <= usize::MAX - len,
            forall|k2: int|
                1 <= k2 < k + 1 ==> !available@[#[trigger] step_at(start as int, k2, len as int, true)],
        decreases len - k,
    {
        let step = k + 1;
        let idx = (start + step) % len;
        if available[idx] {
            assert(idx as int == step_at(start as int, step as int, len as int, true));
            return Some(idx);
        }
        k += 1;
    }
    None
}

/// The previous available snapshot entry before `start`, wrapping around;
/// `None` when no entry is available.
pub fn prev_index(available: &[bool], start: usize) -> (r: Option<usize>)
    requires
        start <= usize::MAX - available@.len(),
    ensures
        first_available(available@, start as int, false, r),
{
    let len = available.len();
    if len == 0 {
        return None;
    }
    let mut k: usize = 0;
    while k < len
        invariant
            0 <= k <= len,
            len == available@.len(),
            start <= usize::MAX - len,
            forall|k2: int|
                1 <= k2 < k + 1 ==> !available@[#[trigger] step_at(start as int, k2, len as int, false)],
        decreases len - k,
    {
        let step = k + 1;
        let idx = (start + len - (step % len)) % len;
        if available[idx] {
            assert(idx as int == step_at(start as int, step as int, len as int, false));
            return Some(idx);
        }
        k += 1;
    }
    None
}

/// The two candidates at distance `delta` from `origin`: below first (when it
/// exists), then above.
pub open spec fn candidate_hit(available: Seq<bool>, origin: int, delta: int) -> bool {
    (origin - delta >= 0 && origin - delta < available.len() && available[origin - delta]) || (
    origin + delta < available.len() && available[origin + delta])
}

/// Where the grid returns when the viewer closes: the opening entry if it is
/// still available, else its nearest available neighbour (the one before it
/// on a tie).
pub open spec fn close_target_ok(available: Seq<bool>, origin: int, r: Option<usize>) -> bool {
    match r {
        Some(idx) => exists|delta: int|
            0 <= delta < available.len() && #[trigger] candidate_hit(available, origin, delta)
                && (if origin - delta >= 0 && origin - delta < available.len() && available[origin
                - delta] {
                idx == origin - delta
            } else {
                idx == origin + delta
            }) && forall|d2: int| 0 <= d2 < delta ==> !#[trigger] candidate_hit(available, origin, d2),
        None => forall|d: int|
            0 <= d < available.len() ==> !#[trigger] candidate_hit(available, origin, d),
    }
}

pub fn close_target(available: &[bool], origin: usize) -> (r: Option<usize>)
    requires
        origin <= usize::MAX - available@.len(),
    ensures
        close_target_ok(available@, origin as int, r),
{
    let len = available.len();
    let mut delta: usize = 0;
    while delta < len
        invariant
            0 <= delta <= len,
            len == available@.len(),
            origin <= usize::MAX - len,
            forall|d2: int|
                0 <= d2 < delta ==> !#[trigger] candidate_hit(available@, origin as int, d2),
        decreases len - delta,
    {
        if delta <= origin && origin - delta < len && available[origin - delta] {
            assert(candidate_hit(available@, origin as int, delta as int));
            return Some(origin - delta);
        }
        if origin + delta < len && available[origin + delta] {
            assert(candidate_hit(available@, origin as int, delta as int));
            return Some(origin + delta);
        }
        assert(!candidate_hit(available@, origin as int, delta as int));
        delta += 1;
    }
    None
}

/// What Escape does in the viewer.
#[derive(Debug, Clone, Copy, PartialEq, Eq)]
pub enum EscapeAction {
    /// The viewer is closed: the key is left to the window.
    NotHandled,
    /// Leave fullscreen and stay in the viewer.
    LeaveFullscreen,
    /// Close the viewer.
    Close,
}

/// Escape first leaves fullscreen, then closes the viewer.
pub fn escape_action(is_open: bool, is_fullscreen: bool) -> (r: EscapeAction)
    ensures
        r == if !is_open {
            EscapeAction::NotHandled
        } else if is_fullscreen {
            EscapeAction::LeaveFullscreen
        } else {
            EscapeAction::Close
        },
{
    if !is_open {
        EscapeAction::NotHandled
    } else if is_fullscreen {
        EscapeAction::LeaveFullscreen
    } else {
        EscapeAction::Close
    }
}

} // verus!
