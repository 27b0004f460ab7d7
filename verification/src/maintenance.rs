//! Mutually exclusive library maintenance jobs.

use vstd::prelude::*;

use crate::models::SourceRoot;
use crate::text::{chars_of, string_from_chars};

verus! {

/// Status published when a maintenance job is requested while another runs.
pub const ALREADY_RUNNING_STATUS: &'static str = "Library maintenance is already running";

#[derive(Debug, Clone, Copy, PartialEq, Eq, Structural)]
pub enum MaintenanceOperation {
    RescanLibrary,
    RegenerateThumbnails,
    RebuildLibraryIndex,
}

/// One lock for every index-mutating maintenance operation.
pub struct MaintenanceCoordinator {
    running: bool,
}

impl MaintenanceCoordinator {
    /// Whether a maintenance job holds the maintenance lock.
    pub closed spec fn is_running(&self) -> bool {
        self.running
    }

    pub fn new() -> (c: MaintenanceCoordinator)
        ensures
            !c.is_running(),
    {
        MaintenanceCoordinator { running: false }
    }

    /// Takes the maintenance lock if it is free; returns whether it was taken.
    pub fn try_begin(&mut self) -> (began: bool)
        ensures
            began == !old(self).is_running(),
            final(self).is_running(),
    {
        if self.running {
            false
        } else {
            self.running = true;
            true
        }
    }

    /// Releases the maintenance lock when the job that took it finishes.
    pub fn end(&mut self)
        ensures
            !final(self).is_running(),
    {
        self.running = false;
    }

    /// Takes the maintenance lock, or returns the passive status to publish when another
    /// job already owns it.
    pub fn try_begin_or_report(&mut self) -> (r: Result<(), String>)
        ensures
            r is Ok == !old(self).is_running(),
            r matches Err(status) ==> status@ == ALREADY_RUNNING_STATUS@,
            final(self).is_running(),
    {
        if self.try_begin() {
            Ok(())
        } else {
            Err(string_from_chars(&chars_of(ALREADY_RUNNING_STATUS)))
        }
    }
}

/// Maintenance jobs exclude each other: once one has begun, every further
/// attempt fails until it ends, and after it ends the next attempt succeeds.
pub proof fn law_maintenance_is_exclusive(
    idle: MaintenanceCoordinator,
    first: MaintenanceCoordinator,
    second: MaintenanceCoordinator,
    began_first: bool,
    began_second: bool,
)
    requires
        !idle.is_running(),
        began_first == !idle.is_running(),
        first.is_running(),
        began_second == !first.is_running(),
        second.is_running(),
    ensures
        began_first,
        !began_second,
        second.is_running(),
{
}

#[derive(Debug, Clone, Copy, PartialEq, Eq)]
pub struct RegenerationReport {
    pub attempted: usize,
    pub succeeded: usize,
}

#[derive(Debug, Clone, Copy, PartialEq, Eq)]
pub struct RebuildReport {
    pub migrations_applied: usize,
    pub roots_scanned: usize,
}

/// Indices of the roots a library rescan or rebuild visits: the available
/// ones, in stored order.
pub open spec fn available_roots_spec(roots: Seq<SourceRoot>) -> Seq<usize>
    decreases roots.len(),
{
    if roots.len() == 0 {
        seq![]
    } else {
        let rest = available_roots_spec(roots.drop_last());
        if roots.last().is_available {
            rest.push((roots.len() - 1) as usize)
        } else {
            rest
        }
    }
}

pub fn available_roots(roots: &[SourceRoot]) -> (r: Vec<usize>)
    ensures
        r@ == available_roots_spec(roots@),
{
    let mut r: Vec<usize> = Vec::new();
    let mut i: usize = 0;
    while i < roots.len()
        invariant
            0 <= i <= roots.len(),
            r@ == available_roots_spec(roots@.take(i as int)),
        decreases roots.len() - i,
    {
        assert(roots@.take(i as int + 1).drop_last() == roots@.take(i as int));
        if roots[i].is_available {
            r.push(i);
        }
        i += 1;
    }
    assert(roots@.take(roots.len() as int) == roots@);
    r
}

} // verus!
