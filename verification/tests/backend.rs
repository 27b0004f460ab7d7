use vesper::backend_loop::{
    add_root_failed_message, hydration_step, scan_failure_entry, scan_failure_message,
    BackendLoopState, FetchDecision, ROOT_OVERLAP_MESSAGE,
};
use vesper::concurrency::{subtree_concurrency_bound, Cancellation, GenerationTable, QueryGate};
use vesper::events::ChangeKind;
use vesper::live_update::{
    ignore_rule_dirs, is_stable, retry_action, route_change, ChangeRoute, FileSnapshot,
    RetryAction, STABILITY_RETRY_BACKOFF_SECS,
};
use vesper::logging::{migration_applied, redact_path, root_availability_changed, scan_completed};
use vesper::maintenance::{available_roots, MaintenanceCoordinator, ALREADY_RUNNING_STATUS};
use vesper::models::SourceRoot;
use vesper::roots::{
    deepest_owning_root, overlaps_existing, owning_root, plan_reconcile, should_remove_deleted,
    RootProbe,
};

#[test]
fn removing_a_root_bumps_its_generation_and_cancels_the_old_token() {
    let mut table = GenerationTable::new();
    let root_id = 7;

    let generation = table.current_generation(root_id);
    let cancel = table.cancellation(root_id, generation);
    assert!(!cancel.is_cancelled(&table), "a live job is not cancelled");

    let bumped = table.invalidate_root(root_id);
    assert_eq!(bumped, generation + 1, "removal advances the generation");

    assert!(
        cancel.is_cancelled(&table),
        "a job tagged with the old generation is dropped after removal"
    );
}

#[test]
fn invalidating_one_root_leaves_other_jobs_running() {
    let mut table = GenerationTable::new();
    let other = table.cancellation(3, table.current_generation(3));
    table.invalidate_root(7);
    assert!(!other.is_cancelled(&table));
    assert!(!Cancellation::never().is_cancelled(&table));
    let fresh = Cancellation::new(7, table.current_generation(7));
    assert!(!fresh.is_cancelled(&table));
}

#[test]
fn subtree_scan_concurrency_is_bounded_by_min_of_four_and_parallelism() {
    assert_eq!(subtree_concurrency_bound(None), 1);
    assert_eq!(subtree_concurrency_bound(Some(0)), 1);
    assert_eq!(subtree_concurrency_bound(Some(2)), 2);
    assert_eq!(subtree_concurrency_bound(Some(4)), 4);
    assert_eq!(subtree_concurrency_bound(Some(64)), 4);
}

#[test]
fn a_query_in_flight_holds_back_thumbnail_work() {
    let mut gate = QueryGate::new();
    assert!(gate.is_idle());
    gate.begin();
    gate.begin();
    assert!(!gate.is_idle());
    assert!(!gate.end(), "one query is still in flight");
    assert!(gate.end(), "the last query ending makes it idle");
    assert!(gate.is_idle());
}

#[test]
fn second_maintenance_operation_is_rejected_with_already_running_status() {
    let mut coord = MaintenanceCoordinator::new();
    assert!(coord.try_begin_or_report().is_ok());
    assert_eq!(
        coord.try_begin_or_report().unwrap_err(),
        ALREADY_RUNNING_STATUS
    );
    coord.end();
    assert!(coord.try_begin());
}

fn root(id: i64, path: &str, available: bool) -> SourceRoot {
    SourceRoot {
        id,
        path: path.to_string(),
        display_path: path.to_string(),
        is_available: available,
    }
}

#[test]
fn maintenance_rescans_only_available_roots() {
    let roots = [
        root(1, "/a", true),
        root(2, "/b", false),
        root(3, "/c", true),
    ];
    assert_eq!(available_roots(&roots), vec![0, 2]);
}

#[test]
fn growing_file_is_not_stable() {
    let first = FileSnapshot { len: 1024, modified_nanos: Some(10) };
    let grown = FileSnapshot { len: 5120, modified_nanos: Some(20) };
    assert!(!is_stable(&first, &grown));
}

#[test]
fn settled_file_is_reported_stable() {
    let first = FileSnapshot { len: 2048, modified_nanos: Some(10) };
    let again = FileSnapshot { len: 2048, modified_nanos: Some(10) };
    assert!(is_stable(&first, &again));
    let no_time = FileSnapshot { len: 2048, modified_nanos: None };
    assert!(!is_stable(&no_time, &no_time));
}

#[test]
fn retry_budget_exhaustion_drops_the_event() {
    // One initial probe plus three backoff retries, sleeping 1s, 5s and 30s.
    let mut slept = 0u64;
    let mut probes = 1usize;
    loop {
        match retry_action(probes, false) {
            RetryAction::WaitSecs(s) => {
                slept += s;
                probes += 1;
            }
            RetryAction::GiveUp => break,
            RetryAction::Index => panic!("an unstable file is never indexed"),
        }
    }
    assert_eq!(probes, 4);
    assert_eq!(slept, 1 + 5 + 30);
    assert_eq!(STABILITY_RETRY_BACKOFF_SECS, [1, 5, 30]);
    assert_eq!(retry_action(2, true), RetryAction::Index);
}

#[test]
fn temp_file_change_events_are_ignored_repeatedly() {
    for _ in 0..3 {
        assert_eq!(
            route_change("/m/movie.mp4.crdownload", ChangeKind::Modified, false),
            ChangeRoute::Ignore
        );
    }
    assert_eq!(
        route_change("/m/notes.txt", ChangeKind::Modified, false),
        ChangeRoute::Ignore
    );
    assert_eq!(
        route_change("/m/clip.mp4", ChangeKind::Modified, false),
        ChangeRoute::ProbeAndIndex
    );
    assert_eq!(
        route_change("/m/sub", ChangeKind::Modified, true),
        ChangeRoute::RescanSubtree
    );
    assert_eq!(
        route_change("/m/a.jpg~", ChangeKind::Deleted, false),
        ChangeRoute::Delete
    );
}

#[test]
fn delete_suppressed_when_root_offline() {
    assert!(!should_remove_deleted(false, false));
    assert!(!should_remove_deleted(true, true));
    assert!(should_remove_deleted(true, false));
}

#[test]
fn ignore_files_load_from_the_root_down_to_the_file_folder() {
    assert_eq!(
        ignore_rule_dirs("/media/Travel/Japan/a.jpg", "/media"),
        vec!["/media", "/media/Travel", "/media/Travel/Japan"]
    );
    assert_eq!(ignore_rule_dirs("/media/a.jpg", "/media"), vec!["/media"]);
    assert_eq!(ignore_rule_dirs("/elsewhere/a.jpg", "/media"), vec!["/media"]);
    assert_eq!(ignore_rule_dirs("/x/a.jpg", "/"), vec!["/", "/x"]);
}

#[test]
fn owning_roots_first_and_deepest() {
    let roots = [root(1, "/media", true), root(2, "/media/nested", true)];
    assert_eq!(owning_root(&roots, "/media/nested/a.jpg"), Some(0));
    assert_eq!(deepest_owning_root(&roots, "/media/nested/a.jpg"), Some(1));
    assert_eq!(owning_root(&roots, "/mediax/a.jpg"), None);
    assert_eq!(deepest_owning_root(&roots, "/other"), None);
}

#[test]
fn new_roots_may_not_overlap_existing_ones() {
    let roots = [root(1, "/media/photos", true)];
    assert!(overlaps_existing(&roots, "/media/photos"));
    assert!(overlaps_existing(&roots, "/media/photos/2023"));
    assert!(overlaps_existing(&roots, "/media"));
    assert!(!overlaps_existing(&roots, "/media/videos"));
    assert!(!overlaps_existing(&roots, "/media/photos-old"));
}

#[test]
fn liveness_pass_plans_watches_and_availability() {
    let probes = vec![
        RootProbe { id: 1, path: "/a".into(), stored_available: true, probed_available: true },
        RootProbe { id: 2, path: "/b".into(), stored_available: true, probed_available: false },
        RootProbe { id: 3, path: "/c".into(), stored_available: false, probed_available: true },
    ];
    let watched = vec!["/a".to_string(), "/gone".to_string()];
    let plan = plan_reconcile(&probes, &watched);
    assert_eq!(plan.watch, vec!["/c".to_string()]);
    assert_eq!(plan.unwatch, vec!["/gone".to_string()]);
    assert_eq!(plan.availability_changes, vec![(2, false), (3, true)]);
    assert_eq!(plan.offline_count, 1);
    assert!(plan.refetch);

    let steady = plan_reconcile(&probes[..1], &["/a".to_string()]);
    assert!(steady.watch.is_empty() && steady.unwatch.is_empty());
    assert!(!steady.refetch);
}

#[test]
fn info_scan_and_migration_events_omit_full_absolute_paths() {
    let scan = scan_completed("/home/alice/Private/Photos/Vacation 2023", 12, 12, 0);
    let availability = root_availability_changed("/mnt/usb/DCIM", false);
    let migration = migration_applied(4, "add_media_identity");

    assert_eq!(scan.root, "Vacation 2023");
    assert_eq!((scan.files_found, scan.files_upserted, scan.files_removed), (12, 12, 0));
    assert_eq!(availability.root, "DCIM");
    assert!(!availability.online);
    assert_eq!(migration.version, 4);
    assert_eq!(migration.name, "add_media_identity");

    for text in [&scan.root, &availability.root] {
        assert!(!text.contains('/'), "no path separator survives: {text}");
        assert!(!text.contains("alice") && !text.contains("Private") && !text.contains("usb"));
    }
    assert_eq!(redact_path("/"), "/");
}

#[test]
fn duplicate_subtree_rescans_are_dropped_while_pending() {
    let mut state = BackendLoopState::new();
    assert!(state.request_subtree_scan("/m/a".to_string()));
    assert!(!state.request_subtree_scan("/m/a".to_string()));
    assert!(state.request_subtree_scan("/m/b".to_string()));
    state.finish_subtree_scan("/m/a");
    assert!(state.request_subtree_scan("/m/a".to_string()));
    assert!(!state.request_subtree_scan("/m/b".to_string()));
}

#[test]
fn fetches_coalesce_and_the_first_one_asks_for_a_rescan() {
    let mut state = BackendLoopState::new();
    assert_eq!(
        state.request_fetch(),
        FetchDecision::Start { generation: 1, initial_rescan: true }
    );
    assert_eq!(state.request_fetch(), FetchDecision::Coalesced);
    state.finish_fetch();
    assert_eq!(
        state.request_fetch(),
        FetchDecision::Start { generation: 2, initial_rescan: false }
    );
}

#[test]
fn hydration_continues_only_after_full_chunks() {
    assert_eq!(hydration_step(0, 500, 500), (500, true));
    assert_eq!(hydration_step(500, 120, 500), (620, false));
    assert_eq!(hydration_step(620, 0, 500), (620, false));
}

#[test]
fn subtree_scan_failure_message_names_scope_and_cause() {
    let message = scan_failure_message("/media/sub", "permission denied");
    assert_eq!(message, "Scan failed for /media/sub: permission denied");
    let entry = scan_failure_entry(3, 9, "/media/sub", message.clone());
    assert_eq!(entry.source_root_id, 3);
    assert_eq!(entry.scan_generation, 9);
    assert_eq!(entry.path, "/media/sub");
    assert_eq!(entry.category, "scan-failed");
    assert_eq!(entry.message, message);
}

#[test]
fn root_messages() {
    assert_eq!(add_root_failed_message("~/Pictures"), "Failed to add directory: ~/Pictures");
    assert_eq!(
        ROOT_OVERLAP_MESSAGE,
        "This folder is already covered by an existing source directory."
    );
}
