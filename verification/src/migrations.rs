//! Which schema migrations a database still needs, and how a failed one is
//! reported.
//!
//! Migrations are versioned and ordered; each runs at most once, in order,
//! and the first failure stops the run.

use vstd::prelude::*;

use crate::display::{int_chars, int_text};
use crate::text::{append_chars, append_str, chars_of, string_from_chars};

verus! {

/// Versions of the schema migrations, in the order they run.
pub const MIGRATION_VERSIONS: [i64; 5] = [1, 2, 3, 4, 5];

/// Names of the schema migrations, by position.
pub const MIGRATION_NAMES: [&'static str; 5] = [
    "initial_schema",
    "path_qualified_tags",
    "media_schema_fixes",
    "scan_errors_settings_session",
    "normalized_search_keys",
];

/// Positions of the migrations among the first `k` whose version is not in
/// `applied`, in order.
pub open spec fn pending_upto(applied: Seq<i64>, k: nat) -> Seq<int>
    decreases k,
{
    if k == 0 {
        seq![]
    } else {
        let rest = pending_upto(applied, (k - 1) as nat);
        if applied.contains(MIGRATION_VERSIONS@[k - 1]) {
            rest
        } else {
            rest.push(k - 1)
        }
    }
}

pub open spec fn pending_spec(applied: Seq<i64>) -> Seq<int> {
    pending_upto(applied, MIGRATION_VERSIONS@.len())
}

/// The positions, in run order, of the migrations whose version is not
/// recorded as applied.
pub fn pending_migrations(applied: &[i64]) -> (r: Vec<usize>)
    ensures
        r@.map_values(|i: usize| i as int) == pending_spec(applied@),
{
    let mut r: Vec<usize> = Vec::new();
    let mut k: usize = 0;
    while k < MIGRATION_VERSIONS.len()
        invariant
            0 <= k <= MIGRATION_VERSIONS@.len(),
            r@.map_values(|i: usize| i as int) == pending_upto(applied@, k as nat),
        decreases MIGRATION_VERSIONS@.len() - k,
    {
        let v = MIGRATION_VERSIONS[k];
        let mut found = false;
        let mut j: usize = 0;
        while j < applied.len()
            invariant
                0 <= j <= applied@.len(),
                v == MIGRATION_VERSIONS@[k as int],
                found == exists|t: int| 0 <= t < j && applied@[t] == v,
            decreases applied@.len() - j,
        {
            if applied[j] == v {
                found = true;
            }
            j += 1;
        }
        proof {
            if applied@.contains(v) {
                let t = choose|t: int| 0 <= t < applied@.len() && applied@[t] == v;
                assert(found);
            }
            if found {
                let t = choose|t: int| 0 <= t < j && applied@[t] == v;
                assert(applied@.contains(v));
            }
        }
        if !found {
            let ghost before = r@;
            r.push(k);
            proof {
                assert(r@.map_values(|i: usize| i as int) =~= before.map_values(|i: usize| i as int).push(
                    k as int,
                ));
            }
        }
        k += 1;
    }
    r
}

/// The versions of the migrations at `positions`.
pub open spec fn versions_at(positions: Seq<int>) -> Seq<i64> {
    positions.map_values(|i: int| MIGRATION_VERSIONS@[i])
}

proof fn lemma_pending_upto_after_applying(applied: Seq<i64>, k: nat)
    requires
        k <= MIGRATION_VERSIONS@.len(),
    ensures
        forall|t: nat|
            t <= k ==> #[trigger] pending_upto(
                applied + versions_at(pending_upto(applied, k)),
                t,
            ).len() == 0,
        forall|i: int|
            0 <= i < pending_upto(applied, k).len() ==> 0 <= #[trigger] pending_upto(applied, k)[i]
                < k,
    decreases k,
{
    if k > 0 {
        lemma_pending_upto_after_applying(applied, (k - 1) as nat);
        let all = applied + versions_at(pending_upto(applied, k));
        let prev = pending_upto(applied, (k - 1) as nat);
        assert forall|t: nat| t <= k implies #[trigger] pending_upto(all, t).len() == 0 by {
            lemma_pending_prefix(applied, all, prev, t, k);
        }
    }
}

proof fn lemma_pending_prefix(applied: Seq<i64>, all: Seq<i64>, prev: Seq<int>, t: nat, k: nat)
    requires
        0 < k <= MIGRATION_VERSIONS@.len(),
        t <= k,
        prev == pending_upto(applied, (k - 1) as nat),
        all == applied + versions_at(pending_upto(applied, k)),
        forall|i: int| 0 <= i < prev.len() ==> 0 <= #[trigger] prev[i] < k - 1,
    ensures
        pending_upto(all, t).len() == 0,
    decreases t,
{
    if t > 0 {
        lemma_pending_prefix(applied, all, prev, (t - 1) as nat, k);
        let v = MIGRATION_VERSIONS@[t - 1];
        if applied.contains(v) {
            let w = choose|w: int| 0 <= w < applied.len() && #[trigger] applied[w] == v;
            assert(all[w] == v);
        } else {
            let pend = pending_upto(applied, k);
            assert(pending_upto(applied, t as nat).len() > 0);
            lemma_pending_contains(applied, t as nat, k);
            let w = choose|w: int| 0 <= w < pend.len() && #[trigger] pend[w] == t - 1;
            assert(all[applied.len() + w] == versions_at(pend)[w]);
        }
    }
}

proof fn lemma_pending_contains(applied: Seq<i64>, t: nat, k: nat)
    requires
        0 < t <= k <= MIGRATION_VERSIONS@.len(),
        !applied.contains(MIGRATION_VERSIONS@[t - 1]),
    ensures
        exists|w: int|
            0 <= w < pending_upto(applied, k).len() && #[trigger] pending_upto(applied, k)[w] == t - 1,
    decreases k,
{
    if k == t {
        let p = pending_upto(applied, k);
        assert(p[p.len() - 1] == t - 1);
    } else {
        lemma_pending_contains(applied, t, (k - 1) as nat);
        let prev = pending_upto(applied, (k - 1) as nat);
        let w = choose|w: int| 0 <= w < prev.len() && #[trigger] prev[w] == t - 1;
        assert(pending_upto(applied, k)[w] == t - 1);
    }
}

/// Running the migrations is idempotent: once every pending migration is
/// recorded as applied, none is pending any more.
pub proof fn law_rerun_applies_nothing(applied: Seq<i64>)
    ensures
        pending_spec(applied + versions_at(pending_spec(applied))).len() == 0,
{
    lemma_pending_upto_after_applying(applied, MIGRATION_VERSIONS@.len());
}

pub open spec fn failure_message_spec(version: i64, name: Seq<char>, cause: Seq<char>) -> Seq<char> {
    "migration "@ + int_text(version as int) + " ('"@ + name + "') failed: "@ + cause
}

/// The fatal error text of a failed migration: its version, name and cause.
pub fn migration_failure_message(version: i64, name: &str, cause: &str) -> (r: String)
    ensures
        r@ == failure_message_spec(version, name@, cause@),
{
    let mut out = chars_of("migration ");
    let number = if version < 0 {
        int_chars(true, (-(version + 1)) as u64 + 1)
    } else {
        int_chars(false, version as u64)
    };
    append_chars(&mut out, &number);
    append_str(&mut out, " ('");
    append_str(&mut out, name);
    append_str(&mut out, "') failed: ");
    append_str(&mut out, cause);
    string_from_chars(&out)
}

} // verus!
