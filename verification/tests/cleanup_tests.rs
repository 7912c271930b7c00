use trop::config::CleanupConfig;
use trop::database::Database;
use trop::operations::cleanup::{
    CleanupOperations, ProbeError, ProbeErrorKind, ProbedPath, PrunePathDecision,
    PrunePathErrorKind, PrunePathStatus, SECONDS_PER_DAY,
};
use trop::port::Port;
use trop::reservation::{Reservation, ReservationKey};
use std::cell::Cell;

/// The directory that exists in these tests (the stand-in for the current directory).
const EXISTING_DIR: &str = "/work/existing";

fn now_secs() -> u64 {
    std::time::SystemTime::now()
        .duration_since(std::time::UNIX_EPOCH)
        .unwrap()
        .as_secs()
}

fn days_ago(days: u64) -> u64 {
    now_secs() - days * SECONDS_PER_DAY
}

fn not_found() -> ProbeError {
    ProbeError {
        kind: ProbeErrorKind::NotFound,
        message: "No such file or directory (os error 2)".to_string(),
        raw_os_error: Some(libc::ENOENT),
    }
}

/// A filesystem where only `EXISTING_DIR` exists.
fn filesystem(path: &String) -> Result<ProbedPath, ProbeError> {
    if path == EXISTING_DIR {
        Ok(ProbedPath::Directory)
    } else {
        Err(not_found())
    }
}

fn key(path: &str, tag: Option<&str>) -> ReservationKey {
    ReservationKey::new(path.to_string(), tag.map(|t| t.to_string())).unwrap()
}

fn add(db: &mut Database, path: &str, tag: Option<&str>, port: u16) -> Reservation {
    let r = Reservation::builder(key(path, tag), Port::try_from(port).unwrap())
        .build()
        .unwrap();
    db.create_reservation(&r).unwrap();
    r
}

fn add_used_at(db: &mut Database, path: &str, tag: Option<&str>, port: u16, at: u64) -> Reservation {
    let r = Reservation::builder(key(path, tag), Port::try_from(port).unwrap())
        .last_used_at(at)
        .build()
        .unwrap();
    db.create_reservation(&r).unwrap();
    r
}

fn expire_after(days: u32) -> CleanupConfig {
    CleanupConfig { expire_after_days: Some(days) }
}

#[test]
fn test_prune_no_reservations() {
    let mut db = Database::new();
    let result = CleanupOperations::prune(&mut db, false, filesystem).unwrap();
    assert_eq!(result.removed_count, 0);
    assert!(result.removed_reservations.is_empty());
}

#[test]
fn test_prune_all_paths_exist() {
    let mut db = Database::new();
    add(&mut db, EXISTING_DIR, None, 5000);
    let result = CleanupOperations::prune(&mut db, false, filesystem).unwrap();
    assert_eq!(result.removed_count, 0);
    assert_eq!(db.list_all_reservations().len(), 1);
}

#[test]
fn test_prune_nonexistent_path() {
    let mut db = Database::new();
    let nonexistent = "/this/path/definitely/does/not/exist/at/all";
    add(&mut db, nonexistent, None, 5000);
    let result = CleanupOperations::prune(&mut db, false, filesystem).unwrap();
    assert_eq!(result.removed_count, 1);
    assert_eq!(result.removed_reservations.len(), 1);
    assert_eq!(result.removed_reservations[0].key().path, nonexistent);
    assert_eq!(db.list_all_reservations().len(), 0);
}

#[test]
fn test_prune_dry_run() {
    let mut db = Database::new();
    add(&mut db, "/this/path/definitely/does/not/exist/at/all", None, 5000);
    let result = CleanupOperations::prune(&mut db, true, filesystem).unwrap();
    assert_eq!(result.removed_count, 1);
    assert_eq!(db.list_all_reservations().len(), 1);
}

#[test]
fn test_prune_mixed_paths() {
    let mut db = Database::new();
    add(&mut db, EXISTING_DIR, None, 5000);
    add(&mut db, "/this/path/definitely/does/not/exist/at/all", None, 5001);
    let result = CleanupOperations::prune(&mut db, false, filesystem).unwrap();
    assert_eq!(result.removed_count, 1);
    assert_eq!(db.list_all_reservations().len(), 1);
}

#[test]
fn test_prune_result_partitions_considered_preserved_and_removed_rows() {
    let mut db = Database::new();
    let existing = add(&mut db, EXISTING_DIR, None, 5000);
    let missing = add(&mut db, "/missing-cleanup-result", None, 5001);
    let result = CleanupOperations::prune(&mut db, true, filesystem).unwrap();
    assert_eq!(result.considered_count, 2);
    assert_eq!(result.preserved_count, 1);
    assert_eq!(result.removed_count, 1);
    assert_eq!(result.considered_reservations.len(), 2);
    assert_eq!(result.preserved_reservations.len(), 1);
    assert!(result.preserved_reservations[0].key().same_key(existing.key()));
    assert_eq!(result.removed_reservations.len(), 1);
    assert!(result.removed_reservations[0].key().same_key(missing.key()));
}

#[test]
fn test_prune_probes_each_distinct_path_once() {
    let mut db = Database::new();
    let path = "/one/probe/per/path";
    add(&mut db, path, None, 5000);
    add(&mut db, path, Some("web"), 5001);
    let probe_count = Cell::new(0);
    let result = CleanupOperations::prune(&mut db, true, |probed: &String| {
        assert_eq!(probed, path);
        probe_count.set(probe_count.get() + 1);
        Ok(ProbedPath::Directory)
    })
    .unwrap();
    assert_eq!(probe_count.get(), 1);
    assert_eq!(
        result.path_decisions,
        vec![PrunePathDecision {
            path: path.to_string(),
            status: PrunePathStatus::ExistingDirectory,
        }]
    );
    assert_eq!(result.removed_count, 0);
}

#[test]
fn test_prune_removes_illegal_internal_paths() {
    let mut db = Database::new();
    let path = "/illegal/internal\0reservation";
    add(&mut db, path, None, 5000);
    let result = CleanupOperations::prune(&mut db, false, |_: &String| {
        Err(ProbeError {
            kind: ProbeErrorKind::InvalidInput,
            message: "file name contained an unexpected NUL byte".to_string(),
            raw_os_error: None,
        })
    })
    .unwrap();
    assert_eq!(result.removed_count, 1);
    assert_eq!(
        result.path_decisions,
        vec![PrunePathDecision { path: path.to_string(), status: PrunePathStatus::NotDirectory }]
    );
    assert!(db.list_all_reservations().is_empty());
}

fn injected(path: &String) -> Result<ProbedPath, ProbeError> {
    let name = path.rsplit('/').next().unwrap();
    let err = |kind: ProbeErrorKind, message: &str, raw: Option<i32>| {
        Err(ProbeError { kind, message: message.to_string(), raw_os_error: raw })
    };
    match name {
        "permission" => err(ProbeErrorKind::PermissionDenied, "simulated ACL denial", None),
        "loop" => err(ProbeErrorKind::Other, "Too many levels of symbolic links (os error 40)", Some(libc::ELOOP)),
        "transient" => err(ProbeErrorKind::TimedOut, "simulated unavailable mount", None),
        "broken-mount" => err(ProbeErrorKind::Other, "Stale file handle (os error 116)", Some(libc::ESTALE)),
        "unsupported" => err(ProbeErrorKind::Unsupported, "simulated unsupported operation", None),
        "unknown" => err(ProbeErrorKind::Other, "simulated unknown I/O failure", None),
        other => panic!("unexpected injected path: {other:?}"),
    }
}

#[test]
fn test_prune_preserves_and_classifies_injected_probe_errors() {
    let mut db = Database::new();
    let fixtures = [
        ("permission", PrunePathErrorKind::PermissionDenied),
        ("loop", PrunePathErrorKind::SymlinkLoop),
        ("transient", PrunePathErrorKind::Transient),
        ("broken-mount", PrunePathErrorKind::Transient),
        ("unsupported", PrunePathErrorKind::Unsupported),
        ("unknown", PrunePathErrorKind::Other),
    ];
    for (index, (name, _)) in fixtures.iter().enumerate() {
        add(&mut db, &format!("/injected/{name}"), None, 5000 + index as u16);
    }
    let result = CleanupOperations::prune(&mut db, false, injected).unwrap();
    assert_eq!(result.removed_count, 0);
    assert!(result.removed_reservations.is_empty());
    assert_eq!(db.list_all_reservations().len(), fixtures.len());
    assert_eq!(result.path_decisions.len(), fixtures.len());
    for (name, expected_kind) in fixtures {
        let decision = result
            .path_decisions
            .iter()
            .find(|d| d.path.ends_with(name))
            .unwrap();
        let PrunePathStatus::Uninspectable(error) = &decision.status else {
            panic!("expected an uninspectable decision for {name}");
        };
        assert_eq!(error.kind, expected_kind);
        assert!(!error.message.is_empty());
        if !matches!(name, "loop" | "broken-mount") {
            assert!(error.message.contains("simulated"));
        }
    }
}

fn classified(path: &String) -> Result<ProbedPath, ProbeError> {
    let name = path.rsplit('/').next().unwrap();
    let err = |kind: ProbeErrorKind, message: &str, raw: Option<i32>| {
        Err(ProbeError { kind, message: message.to_string(), raw_os_error: raw })
    };
    match name {
        "directory" => Ok(ProbedPath::Directory),
        "missing" => err(ProbeErrorKind::NotFound, "simulated missing target", None),
        "bad-ancestor" => err(ProbeErrorKind::Other, "Not a directory (os error 20)", Some(libc::ENOTDIR)),
        "file" => Ok(ProbedPath::NonDirectory),
        "invalid-input" => err(ProbeErrorKind::InvalidInput, "simulated invalid path", None),
        "invalid-filename" => err(ProbeErrorKind::InvalidFilename, "simulated invalid filename", None),
        other => panic!("unexpected injected path: {other:?}"),
    }
}

#[test]
fn test_prune_removes_only_definitive_missing_or_non_directory_paths() {
    let mut db = Database::new();
    let names = ["directory", "missing", "bad-ancestor", "file", "invalid-input", "invalid-filename"];
    for (index, name) in names.iter().enumerate() {
        add(&mut db, &format!("/classified/{name}"), None, 5000 + index as u16);
    }
    let result = CleanupOperations::prune(&mut db, false, classified).unwrap();
    assert_eq!(result.removed_count, 5);
    let remaining = db.list_all_reservations();
    assert_eq!(remaining.len(), 1);
    assert!(remaining[0].key().path.ends_with("directory"));
    let status = |name: &str| {
        result
            .path_decisions
            .iter()
            .find(|d| d.path.rsplit('/').next().unwrap() == name)
            .unwrap()
            .status
            .clone()
    };
    assert_eq!(status("directory"), PrunePathStatus::ExistingDirectory);
    assert_eq!(status("missing"), PrunePathStatus::Missing);
    assert_eq!(status("bad-ancestor"), PrunePathStatus::NotDirectory);
    assert_eq!(status("file"), PrunePathStatus::NotDirectory);
    assert_eq!(status("invalid-input"), PrunePathStatus::NotDirectory);
    assert_eq!(status("invalid-filename"), PrunePathStatus::NotDirectory);
}

#[test]
fn test_expire_no_config() {
    let mut db = Database::new();
    let config = CleanupConfig { expire_after_days: None };
    let result = CleanupOperations::expire(&mut db, &config, false).unwrap();
    assert_eq!(result.removed_count, 0);
}

#[test]
fn test_expire_no_old_reservations() {
    let mut db = Database::new();
    add(&mut db, "/test/path", None, 5000);
    let result = CleanupOperations::expire(&mut db, &expire_after(7), false).unwrap();
    assert_eq!(result.removed_count, 0);
    assert_eq!(db.list_all_reservations().len(), 1);
}

#[test]
fn test_expire_old_reservation() {
    let mut db = Database::new();
    add_used_at(&mut db, "/test/path", None, 5000, days_ago(10));
    let result = CleanupOperations::expire(&mut db, &expire_after(7), false).unwrap();
    assert_eq!(result.removed_count, 1);
    assert_eq!(db.list_all_reservations().len(), 0);
}

#[test]
fn test_expire_dry_run() {
    let mut db = Database::new();
    add_used_at(&mut db, "/test/path", None, 5000, days_ago(10));
    let result = CleanupOperations::expire(&mut db, &expire_after(7), true).unwrap();
    assert_eq!(result.removed_count, 1);
    assert_eq!(db.list_all_reservations().len(), 1);
}

#[test]
fn test_expire_mixed_ages() {
    let mut db = Database::new();
    add_used_at(&mut db, "/test/old", None, 5000, days_ago(10));
    add(&mut db, "/test/fresh", None, 5001);
    let result = CleanupOperations::expire(&mut db, &expire_after(7), false).unwrap();
    assert_eq!(result.removed_count, 1);
    let all = db.list_all_reservations();
    assert_eq!(all.len(), 1);
    assert_eq!(all[0].key().path, "/test/fresh");
}

#[test]
fn test_autoclean_combines_operations() {
    let mut db = Database::new();
    add(&mut db, "/this/path/definitely/does/not/exist/at/all", None, 5000);
    add_used_at(&mut db, EXISTING_DIR, Some("old"), 5001, days_ago(10));
    add(&mut db, EXISTING_DIR, Some("fresh"), 5002);
    let result = CleanupOperations::autoclean(&mut db, &expire_after(7), false, filesystem).unwrap();
    assert_eq!(result.pruned_count, 1);
    assert_eq!(result.expired_count, 1);
    assert_eq!(result.total_removed, 2);
    assert_eq!(db.list_all_reservations().len(), 1);
}

#[test]
fn test_autoclean_dry_run() {
    let mut db = Database::new();
    add(&mut db, "/this/path/definitely/does/not/exist/at/all", None, 5000);
    let result = CleanupOperations::autoclean(&mut db, &expire_after(7), true, filesystem).unwrap();
    assert_eq!(result.pruned_count, 1);
    assert_eq!(result.total_removed, 1);
    assert_eq!(db.list_all_reservations().len(), 1);
}

#[test]
fn test_prune_multiple_nonexistent_paths() {
    let mut db = Database::new();
    for i in 0..5u16 {
        add(&mut db, &format!("/nonexistent/path/{i}"), None, 5000 + i);
    }
    let result = CleanupOperations::prune(&mut db, false, filesystem).unwrap();
    assert_eq!(result.removed_count, 5);
    assert_eq!(db.list_all_reservations().len(), 0);
}

#[test]
fn test_expire_boundary_threshold() {
    let mut db = Database::new();
    add_used_at(&mut db, "/test/old", None, 5000, days_ago(8));
    add_used_at(&mut db, "/test/fresh", None, 5001, days_ago(5));
    let result = CleanupOperations::expire(&mut db, &expire_after(7), false).unwrap();
    assert_eq!(result.removed_count, 1);
    let remaining = db.list_all_reservations();
    assert_eq!(remaining.len(), 1);
    assert_eq!(remaining[0].key().path, "/test/fresh");
}

#[test]
fn test_autoclean_no_overlap() {
    let mut db = Database::new();
    add(&mut db, "/nonexistent", None, 5000);
    add_used_at(&mut db, EXISTING_DIR, None, 5001, days_ago(10));
    let result = CleanupOperations::autoclean(&mut db, &expire_after(7), false, filesystem).unwrap();
    assert_eq!(result.pruned_count, 1);
    assert_eq!(result.expired_count, 1);
    assert_eq!(result.total_removed, 2);
    assert_eq!(result.pruned_reservations.len(), 1);
    assert_eq!(result.expired_reservations.len(), 1);
}

#[test]
fn test_prune_result_contains_correct_reservations() {
    let mut db = Database::new();
    let path = "/nonexistent/path";
    let port = Port::try_from(5000).unwrap();
    let reservation = Reservation::builder(key(path, Some("test")), port)
        .project(Some("test-project".to_string()))
        .build()
        .unwrap();
    db.create_reservation(&reservation).unwrap();
    let result = CleanupOperations::prune(&mut db, false, filesystem).unwrap();
    assert_eq!(result.removed_reservations.len(), 1);
    let removed = &result.removed_reservations[0];
    assert_eq!(removed.key().path, path);
    assert_eq!(removed.key().tag, Some("test".to_string()));
    assert_eq!(removed.port(), port);
    assert_eq!(removed.project(), Some("test-project"));
}

#[test]
fn test_expire_result_contains_correct_reservations() {
    let mut db = Database::new();
    let reservation = Reservation::builder(key("/test/old", Some("svc")), Port::try_from(5000).unwrap())
        .project(Some("old-project".to_string()))
        .task(Some("dev".to_string()))
        .last_used_at(days_ago(10))
        .build()
        .unwrap();
    db.create_reservation(&reservation).unwrap();
    let result = CleanupOperations::expire(&mut db, &expire_after(7), false).unwrap();
    assert_eq!(result.removed_reservations.len(), 1);
    let removed = &result.removed_reservations[0];
    assert_eq!(removed.key().tag, Some("svc".to_string()));
    assert_eq!(removed.project(), Some("old-project"));
    assert_eq!(removed.task(), Some("dev"));
}

#[test]
fn test_cleanup_preserves_fresh_valid_reservations() {
    let mut db = Database::new();
    add(&mut db, EXISTING_DIR, None, 5000);
    let result = CleanupOperations::autoclean(&mut db, &expire_after(7), false, filesystem).unwrap();
    assert_eq!(result.total_removed, 0);
    assert_eq!(db.list_all_reservations().len(), 1);
}

#[test]
fn test_prune_with_symlink_paths() {
    let mut db = Database::new();
    add(&mut db, "/this/might/be/a/broken/symlink", None, 5000);
    let result = CleanupOperations::prune(&mut db, false, filesystem).unwrap();
    assert_eq!(result.removed_count, 1);
}

#[test]
fn test_expire_multiple_threshold_values() {
    let mut db = Database::new();
    for (i, days) in [30u64, 60, 90].iter().enumerate() {
        add_used_at(&mut db, &format!("/test/{i}"), None, 5000 + i as u16, days_ago(*days));
    }
    let result = CleanupOperations::expire(&mut db, &expire_after(45), false).unwrap();
    assert_eq!(result.removed_count, 2);
    assert_eq!(db.list_all_reservations().len(), 1);
}

fn same_reservations(a: &[Reservation], b: &[Reservation]) -> bool {
    a.len() == b.len() && a.iter().zip(b.iter()).all(|(x, y)| x.same_as(y))
}

#[test]
fn test_autoclean_deduplicates_overlap_and_matches_live_selection() {
    let mut db = Database::new();
    add_used_at(&mut db, "/missing-and-expired", None, 5200, days_ago(10));
    let config = expire_after(7);
    let preview = CleanupOperations::autoclean(&mut db, &config, true, filesystem).unwrap();
    let live = CleanupOperations::autoclean(&mut db, &config, false, filesystem).unwrap();
    assert_eq!(preview.total_removed, 1);
    assert_eq!(preview.pruned_count, 1);
    assert_eq!(preview.expired_count, 0);
    assert_eq!(preview.total_removed, live.total_removed);
    assert_eq!(preview.removed_reservations.len(), 1);
    assert!(same_reservations(&preview.removed_reservations, &live.removed_reservations));
    assert!(same_reservations(&preview.pruned_reservations, &live.pruned_reservations));
    assert!(same_reservations(&preview.expired_reservations, &live.expired_reservations));
}

#[test]
fn test_expire_at_fixed_clock_is_exact() {
    // A reservation last used exactly `days` days ago is not yet expired; one second more is.
    let mut db = Database::new();
    let now: u64 = 1_000_000_000;
    add_used_at(&mut db, "/at/boundary", None, 5000, now - 7 * SECONDS_PER_DAY);
    add_used_at(&mut db, "/past/boundary", None, 5001, now - 7 * SECONDS_PER_DAY - 1);
    let result = CleanupOperations::expire_at(&mut db, &expire_after(7), false, now).unwrap();
    assert_eq!(result.considered_count, 2);
    assert_eq!(result.removed_count, 1);
    assert_eq!(result.removed_reservations[0].key().path, "/past/boundary");
    assert_eq!(result.preserved_count, 1);
    assert_eq!(db.list_all_reservations()[0].key().path, "/at/boundary");
}

#[test]
fn test_expire_barrier_runs_once_before_deletion() {
    let mut db = Database::new();
    add_used_at(&mut db, "/expire-race", None, 5300, days_ago(10));
    let calls = Cell::new(0);
    let result = CleanupOperations::expire_with_candidate_barrier(&mut db, &expire_after(7), false, || {
        calls.set(calls.get() + 1);
    })
    .unwrap();
    assert_eq!(calls.get(), 1);
    assert_eq!(result.removed_count, 1);
    assert!(db.list_all_reservations().is_empty());
}

#[test]
fn test_prune_path_error_kind_texts() {
    assert_eq!(PrunePathErrorKind::PermissionDenied.to_display_string(), "permission denied");
    assert_eq!(PrunePathErrorKind::SymlinkLoop.to_display_string(), "symlink loop");
    assert_eq!(PrunePathErrorKind::Transient.to_display_string(), "transient I/O error");
    assert_eq!(PrunePathErrorKind::Unsupported.to_display_string(), "unsupported filesystem operation");
    assert_eq!(PrunePathErrorKind::Other.to_display_string(), "unknown filesystem error");
    assert!(PrunePathStatus::Missing.is_prunable());
    assert!(PrunePathStatus::NotDirectory.is_prunable());
    assert!(!PrunePathStatus::ExistingDirectory.is_prunable());
}
