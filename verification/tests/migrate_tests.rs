use trop::database::Database;
use trop::error::Error;
use trop::operations::migrate::{calculate_new_path, execute_migrate, MigrateOptions, MigratePlan};
use trop::port::Port;
use trop::reservation::{Reservation, ReservationKey};

const WORKING_DIR: &str = "/work";

fn key(path: &str) -> ReservationKey {
    ReservationKey::new(path.to_string(), None).unwrap()
}

fn options(from: &str, to: &str) -> MigrateOptions {
    MigrateOptions::new(from.to_string(), to.to_string())
}

#[test]
fn test_migrate_options_new() {
    let options = options("/old", "/new");
    assert!(!options.recursive);
    assert!(!options.force);
    assert!(!options.dry_run);
}

#[test]
fn test_migrate_options_builder() {
    let options = options("/old", "/new").with_recursive(true).with_force(true).with_dry_run(true);
    assert!(options.recursive);
    assert!(options.force);
    assert!(options.dry_run);
}

#[test]
fn test_calculate_new_path_exact_match() {
    let result = calculate_new_path("/old/path", "/old/path", "/new/path").unwrap();
    assert_eq!(result, "/new/path");
}

#[test]
fn test_calculate_new_path_with_suffix() {
    let result = calculate_new_path("/old/path/subdir/file", "/old/path", "/new/path").unwrap();
    assert_eq!(result, "/new/path/subdir/file");
}

#[test]
fn test_calculate_new_path_invalid_prefix() {
    let result = calculate_new_path("/different/path", "/old/path", "/new/path");
    assert!(result.is_err());
}

#[test]
fn test_calculate_new_path_is_component_wise() {
    // "/old/pathology" does not lie under "/old/path".
    assert!(calculate_new_path("/old/pathology", "/old/path", "/new").is_err());
}

#[test]
fn test_migrate_plan_nonrecursive_not_found() {
    let db = Database::new();
    let mut plan = MigratePlan::new(options("/nonexistent", "/new"));
    let result = plan.build(&db, WORKING_DIR);
    assert!(result.is_err());
    assert!(matches!(result.unwrap_err(), Error::NotFound { .. }));
}

#[test]
fn test_migrate_plan_recursive_empty_ok() {
    let db = Database::new();
    let mut plan = MigratePlan::new(options("/nonexistent", "/new").with_recursive(true));
    let result = plan.build(&db, WORKING_DIR);
    assert!(result.is_ok());
    assert_eq!(plan.migration_count(), 0);
}

#[test]
fn test_migrate_plan_single_reservation() {
    let mut db = Database::new();
    let port = Port::try_from(5000).unwrap();
    let reservation = Reservation::builder(key("/old/path"), port)
        .project(Some("test-project".to_string()))
        .task(Some("test-task".to_string()))
        .build()
        .unwrap();
    db.create_reservation(&reservation).unwrap();
    let mut plan = MigratePlan::new(options("/old/path", "/new/path"));
    plan.build(&db, WORKING_DIR).unwrap();
    assert_eq!(plan.migration_count(), 1);
    assert_eq!(plan.conflict_count(), 0);
    let item = &plan.migrations[0];
    assert_eq!(item.from_key.path, "/old/path");
    assert_eq!(item.to_key.path, "/new/path");
    assert_eq!(item.reservation.port(), port);
    assert_eq!(item.reservation.project(), Some("test-project"));
    assert_eq!(item.reservation.task(), Some("test-task"));
}

fn conflicting_db() -> Database {
    let mut db = Database::new();
    let r1 = Reservation::builder(key("/old/path"), Port::try_from(5000).unwrap()).build().unwrap();
    let r2 = Reservation::builder(key("/new/path"), Port::try_from(5001).unwrap()).build().unwrap();
    db.create_reservation(&r1).unwrap();
    db.create_reservation(&r2).unwrap();
    db
}

#[test]
fn test_migrate_plan_with_conflict() {
    let db = conflicting_db();
    let mut plan = MigratePlan::new(options("/old/path", "/new/path"));
    let result = plan.build(&db, WORKING_DIR);
    assert!(result.is_err());
    assert!(matches!(result.unwrap_err(), Error::ReservationConflict { .. }));
}

#[test]
fn test_migrate_plan_with_conflict_force() {
    let db = conflicting_db();
    let mut plan = MigratePlan::new(options("/old/path", "/new/path").with_force(true));
    plan.build(&db, WORKING_DIR).unwrap();
    assert_eq!(plan.migration_count(), 1);
    assert_eq!(plan.conflict_count(), 1);
}

#[test]
fn test_migrate_plan_recursive() {
    let mut db = Database::new();
    for (i, path) in ["/old/path", "/old/path/sub1", "/old/path/sub2"].iter().enumerate() {
        let r = Reservation::builder(key(path), Port::try_from(5000 + i as u16).unwrap()).build().unwrap();
        db.create_reservation(&r).unwrap();
    }
    let mut plan = MigratePlan::new(options("/old/path", "/new/path").with_recursive(true));
    plan.build(&db, WORKING_DIR).unwrap();
    assert_eq!(plan.migration_count(), 3);
    assert_eq!(plan.conflict_count(), 0);
    let new_paths: Vec<String> = plan.migrations.iter().map(|m| m.to_key.path.clone()).collect();
    assert!(new_paths.contains(&"/new/path".to_string()));
    assert!(new_paths.contains(&"/new/path/sub1".to_string()));
    assert!(new_paths.contains(&"/new/path/sub2".to_string()));
}

#[test]
fn test_migrate_plan_relative_paths_use_working_dir() {
    let mut db = Database::new();
    let r = Reservation::builder(key("/work/old"), Port::try_from(5000).unwrap()).build().unwrap();
    db.create_reservation(&r).unwrap();
    let mut plan = MigratePlan::new(options("old", "new"));
    plan.build_with(&db, None, WORKING_DIR).unwrap();
    assert_eq!(plan.migrations[0].to_key.path, "/work/new");
}

#[test]
fn test_execute_migrate_moves_reservation_and_keeps_port() {
    let mut db = Database::new();
    let r = Reservation::builder(key("/old/path"), Port::try_from(5000).unwrap())
        .project(Some("p".to_string()))
        .build()
        .unwrap();
    db.create_reservation(&r).unwrap();
    let mut plan = MigratePlan::new(options("/old/path", "/new/path"));
    plan.build(&db, WORKING_DIR).unwrap();
    let result = execute_migrate(&plan, &mut db).unwrap();
    assert_eq!(result.migrated_count, 1);
    assert_eq!(result.conflicts_resolved, 0);
    assert!(db.get_reservation(&key("/old/path")).is_none());
    let moved = db.get_reservation(&key("/new/path")).unwrap();
    assert_eq!(moved.port(), Port::try_from(5000).unwrap());
    assert_eq!(moved.project(), Some("p"));
}

#[test]
fn test_execute_migrate_forced_overwrites_destination() {
    let mut db = conflicting_db();
    let mut plan = MigratePlan::new(options("/old/path", "/new/path").with_force(true));
    plan.build(&db, WORKING_DIR).unwrap();
    let result = execute_migrate(&plan, &mut db).unwrap();
    assert_eq!(result.migrated_count, 1);
    assert_eq!(result.conflicts_resolved, 1);
    let all = db.list_all_reservations();
    assert_eq!(all.len(), 1);
    assert_eq!(all[0].key().path, "/new/path");
    assert_eq!(all[0].port(), Port::try_from(5000).unwrap());
}
