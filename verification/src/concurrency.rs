//! Backend concurrency policy state.
//!
//! - **Bounded subtree scans**: at most `min(4, parallelism)` at once.
//! - **Generation-based cancellation**: each root has a live generation; a scan
//!   captures it at start and is cancelled once it is superseded (e.g. the
//!   root is removed), so an in-flight walker stops producing results.
//! - **Query priority**: UI queries mark themselves active; thumbnail work
//!   waits until no query is in flight.

use std::collections::HashMap;
use vstd::prelude::*;

verus! {

broadcast use vstd::std_specs::hash::group_hash_axioms;

/// The number of concurrent subtree scans allowed: the machine's parallelism
/// (1 when unknown), clamped to `1..=4`.
pub open spec fn subtree_bound_spec(parallelism: Option<usize>) -> usize {
    let p = match parallelism {
        Some(n) => n,
        None => 1,
    };
    if p < 1 {
        1
    } else if p > 4 {
        4
    } else {
        p
    }
}

/// Upper bound on concurrent subtree scans: `min(4, parallelism)`, given the
/// available parallelism reported by the host.
pub fn subtree_concurrency_bound(parallelism: Option<usize>) -> (r: usize)
    ensures
        r == subtree_bound_spec(parallelism),
        1 <= r <= 4,
{
    let p = match parallelism {
        Some(n) => n,
        None => 1,
    };
    if p < 1 {
        1
    } else if p > 4 {
        4
    } else {
        p
    }
}

/// Live job generation of every source root; roots never invalidated are at
/// generation 0.
pub struct GenerationTable {
    generations: HashMap<i64, u64>,
}

impl GenerationTable {
    /// Generation of each root, as a map (absent roots are at 0).
    pub closed spec fn view(&self) -> Map<i64, u64> {
        self.generations@
    }

    /// The live generation of `root_id`.
    pub open spec fn generation_of(&self, root_id: i64) -> u64 {
        if self.view().contains_key(root_id) {
            self.view()[root_id]
        } else {
            0
        }
    }

    pub fn new() -> (t: GenerationTable)
        ensures
            t.view() == Map::<i64, u64>::empty(),
    {
        GenerationTable { generations: HashMap::new() }
    }

    /// The live generation of `root_id`.
    pub fn current_generation(&self, root_id: i64) -> (g: u64)
        ensures
            g == self.generation_of(root_id),
    {
        match self.generations.get(&root_id) {
            Some(g) => *g,
            None => 0,
        }
    }

    /// Bumps a root's generation, invalidating every in-flight job tagged with
    /// the previous one. Returns the new generation.
    pub fn invalidate_root(&mut self, root_id: i64) -> (g: u64)
        requires
            old(self).generation_of(root_id) < u64::MAX,
        ensures
            g == old(self).generation_of(root_id) + 1,
            final(self).view() == old(self).view().insert(root_id, g),
    {
        let next = self.current_generation(root_id) + 1;
        self.generations.insert(root_id, next);
        next
    }

    /// Whether a job tagged `(root_id, generation)` is still live.
    pub fn is_current(&self, root_id: i64, generation: u64) -> (r: bool)
        ensures
            r == (self.generation_of(root_id) == generation),
    {
        self.current_generation(root_id) == generation
    }
}

/// A cancellation check for a scan job. It fires once the owning root's job
/// generation has moved past the generation the job was tagged with; a token
/// made by [`Cancellation::never`] never fires.
#[derive(Debug, Clone, Copy)]
pub struct Cancellation {
    pub tied_to: Option<(i64, u64)>,
}

impl Cancellation {
    /// A token for a job on `root_id` tagged with `generation`.
    pub fn new(root_id: i64, generation: u64) -> (c: Cancellation)
        ensures
            c.tied_to == Some((root_id, generation)),
    {
        Cancellation { tied_to: Some((root_id, generation)) }
    }

    /// A token that never cancels, for callers without a coordinator.
    pub fn never() -> (c: Cancellation)
        ensures
            c.tied_to is None,
    {
        Cancellation { tied_to: None }
    }

    /// The root this token watches, if any.
    pub open spec fn root(&self) -> Option<i64> {
        match self.tied_to {
            Some((root_id, _)) => Some(root_id),
            None => None,
        }
    }

    pub open spec fn cancelled_in(&self, table: &GenerationTable) -> bool {
        match self.tied_to {
            Some((root_id, generation)) => table.generation_of(root_id) != generation,
            None => false,
        }
    }

    /// Whether the job this token belongs to has been superseded.
    pub fn is_cancelled(&self, table: &GenerationTable) -> (r: bool)
        ensures
            r == self.cancelled_in(table),
    {
        match self.tied_to {
            Some((root_id, generation)) => !table.is_current(root_id, generation),
            None => false,
        }
    }
}

impl GenerationTable {
    /// A cancellation token that fires once `root_id`'s generation moves past
    /// `generation`.
    pub fn cancellation(&self, root_id: i64, generation: u64) -> (c: Cancellation)
        ensures
            c.tied_to == Some((root_id, generation)),
    {
        Cancellation::new(root_id, generation)
    }
}

/// Invalidating a root cancels every job that captured the root's generation
/// before the invalidation, and leaves jobs on other roots as they were.
pub proof fn law_invalidation_cancels_only_that_root(
    before: GenerationTable,
    after: GenerationTable,
    root_id: i64,
    issued: u64,
    job: Cancellation,
)
    requires
        issued == before.generation_of(root_id) + 1,
        after.view() == before.view().insert(root_id, issued),
    ensures
        (Cancellation { tied_to: Some((root_id, before.generation_of(root_id))) }).cancelled_in(
            &after,
        ),
        !(Cancellation { tied_to: Some((root_id, issued)) }).cancelled_in(&after),
        job.tied_to is None ==> !job.cancelled_in(&after),
        (job.root() is Some && job.root() != Some(root_id)) ==> (job.cancelled_in(&after)
            == job.cancelled_in(&before)),
{
}

/// In-flight query count that gives UI queries priority over thumbnail work:
/// thumbnail workers wait until it is idle.
pub struct QueryGate {
    active: usize,
}

impl QueryGate {
    /// The number of queries in flight.
    pub closed spec fn in_flight(&self) -> nat {
        self.active as nat
    }

    pub fn new() -> (g: QueryGate)
        ensures
            g.in_flight() == 0,
    {
        QueryGate { active: 0 }
    }

    /// Marks a query as in flight.
    pub fn begin(&mut self)
        requires
            old(self).in_flight() < usize::MAX,
        ensures
            final(self).in_flight() == old(self).in_flight() + 1,
    {
        self.active = self.active + 1;
    }

    /// Marks a query as finished; returns whether it was the last one in
    /// flight, so deferred thumbnail workers can be woken.
    pub fn end(&mut self) -> (drained: bool)
        requires
            old(self).in_flight() > 0,
        ensures
            final(self).in_flight() == old(self).in_flight() - 1,
            drained == (final(self).in_flight() == 0),
    {
        self.active = self.active - 1;
        self.active == 0
    }

    pub fn is_idle(&self) -> (r: bool)
        ensures
            r == (self.in_flight() == 0),
    {
        self.active == 0
    }
}

/// Ending a query undoes beginning it: the in-flight count returns to where it
/// was, so a gate that was idle is idle again.
pub proof fn law_end_undoes_begin(before: QueryGate, during: QueryGate, after: QueryGate)
    requires
        during.in_flight() == before.in_flight() + 1,
        after.in_flight() == during.in_flight() - 1,
    ensures
        after.in_flight() == before.in_flight(),
        before.in_flight() == 0 ==> after.in_flight() == 0,
{
}

} // verus!
