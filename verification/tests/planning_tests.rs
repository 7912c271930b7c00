use trop::config::{Config, PortConfig};
use trop::database::Database;
use trop::error::Error;
use trop::operations::plan::{OperationPlan, PlanAction};
use trop::operations::release::{ReleaseOptions, ReleasePlan};
use trop::operations::reserve::{can_change_field, ReserveOptions, ReservePlan};
use trop::port::Port;
use trop::reservation::{Reservation, ReservationKey};

/// The working directory the plans are built against; "/test/path" and
/// "/unrelated/path" are both unrelated to it.
const WORKING_DIR: &str = "/work/dir";

fn key(path: &str) -> ReservationKey {
    ReservationKey::new(path.to_string(), None).unwrap()
}

fn create_test_config() -> Config {
    Config {
        ports: Some(PortConfig { min: 5000, max: Some(7000), max_offset: None }),
        ..Default::default()
    }
}

fn reserve(db: &Database, config: &Config, options: ReserveOptions) -> Result<OperationPlan, Error> {
    ReservePlan::new(options, config).build_plan(db, WORKING_DIR, &Vec::new())
}

fn release(db: &Database, options: ReleaseOptions) -> Result<OperationPlan, Error> {
    ReleasePlan::new(options).build_plan(db, WORKING_DIR)
}

// ---------------------------------------------------------------- plan

#[test]
fn test_plan_action_description() {
    let reservation = Reservation::builder(key("/path"), Port::try_from(8080).unwrap()).build().unwrap();
    let desc = PlanAction::CreateReservation(reservation).description();
    assert!(desc.contains("/path"));
    assert!(desc.contains("8080"));
}

#[test]
fn test_operation_plan_new() {
    let plan = OperationPlan::new("Test operation");
    assert_eq!(plan.description, "Test operation");
    assert!(plan.is_empty());
    assert_eq!(plan.len(), 0);
}

#[test]
fn test_operation_plan_add_action() {
    let reservation = Reservation::builder(key("/path"), Port::try_from(8080).unwrap()).build().unwrap();
    let plan = OperationPlan::new("Test").add_action(PlanAction::CreateReservation(reservation));
    assert_eq!(plan.len(), 1);
    assert!(!plan.is_empty());
}

#[test]
fn test_operation_plan_add_warning() {
    let plan = OperationPlan::new("Test").add_warning("Test warning");
    assert_eq!(plan.warnings.len(), 1);
    assert_eq!(plan.warnings[0], "Test warning");
}

#[test]
fn test_operation_plan_builder_pattern() {
    let key = key("/path");
    let reservation = Reservation::builder(key.clone(), Port::try_from(8080).unwrap()).build().unwrap();
    let plan = OperationPlan::new("Test")
        .add_action(PlanAction::CreateReservation(reservation))
        .add_warning("Warning 1")
        .add_warning("Warning 2")
        .add_action(PlanAction::UpdateLastUsed(key));
    assert_eq!(plan.len(), 2);
    assert_eq!(plan.warnings.len(), 2);
}

#[test]
fn test_plan_action_description_texts() {
    let key = ReservationKey::new("/p".to_string(), Some("web".to_string())).unwrap();
    let r = Reservation::builder(key.clone(), Port::try_from(8080).unwrap()).build().unwrap();
    assert_eq!(PlanAction::CreateReservation(r.clone()).description(), "Create reservation for /p:web on port 8080");
    assert_eq!(PlanAction::UpdateReservation(r).description(), "Update reservation for /p:web to port 8080");
    assert_eq!(PlanAction::UpdateLastUsed(key.clone()).description(), "Update last_used_at timestamp for /p:web");
    assert_eq!(PlanAction::DeleteReservation(key).description(), "Delete reservation for /p:web");
}

// ---------------------------------------------------------------- release

#[test]
fn prop_release_force_overrides_path_validation() {
    let db = Database::new();
    let without = ReleaseOptions::new(key("/unrelated/path")).with_force(false).with_allow_unrelated_path(false);
    let with = ReleaseOptions::new(key("/unrelated/path")).with_force(true).with_allow_unrelated_path(false);
    assert!(release(&db, without).is_err(), "unrelated path must fail without force");
    assert!(release(&db, with).is_ok(), "force must override path validation");
}

#[test]
fn prop_release_allow_unrelated_path_enables_operations() {
    let db = Database::new();
    let options = ReleaseOptions::new(key("/unrelated/path")).with_force(false).with_allow_unrelated_path(true);
    assert!(release(&db, options).is_ok(), "allow_unrelated_path must enable unrelated path operations");
}

#[test]
fn prop_multiple_releases_are_idempotent() {
    let db = Database::new();
    let plan1 = release(&db, ReleaseOptions::new(key("/test/path")).with_allow_unrelated_path(true)).unwrap();
    assert_eq!(plan1.len(), 0);
    assert!(!plan1.warnings.is_empty());
    let plan2 = release(&db, ReleaseOptions::new(key("/test/path")).with_allow_unrelated_path(true)).unwrap();
    assert_eq!(plan2.len(), 0);
    assert!(!plan2.warnings.is_empty());
}

#[test]
fn test_release_options_new() {
    let options = ReleaseOptions::new(key("/path"));
    assert!(!options.force);
    assert!(!options.allow_unrelated_path);
}

#[test]
fn test_release_options_builder() {
    let options = ReleaseOptions::new(key("/path")).with_force(true).with_allow_unrelated_path(true);
    assert!(options.force);
    assert!(options.allow_unrelated_path);
}

#[test]
fn test_plan_release_existing_reservation() {
    let mut db = Database::new();
    let reservation = Reservation::builder(key("/test/path"), Port::try_from(8080).unwrap()).build().unwrap();
    db.create_reservation(&reservation).unwrap();
    let plan = release(&db, ReleaseOptions::new(key("/test/path")).with_allow_unrelated_path(true)).unwrap();
    assert_eq!(plan.len(), 1);
    assert!(matches!(plan.actions[0], PlanAction::DeleteReservation(_)));
}

#[test]
fn test_plan_release_nonexistent_reservation() {
    let db = Database::new();
    let plan = release(&db, ReleaseOptions::new(key("/test/path")).with_allow_unrelated_path(true)).unwrap();
    assert_eq!(plan.len(), 0);
    assert_eq!(plan.warnings.len(), 1);
    assert!(plan.warnings[0].contains("No reservation found"));
}

#[test]
fn test_plan_release_path_relationship_denied() {
    let db = Database::new();
    assert!(release(&db, ReleaseOptions::new(key("/unrelated/path"))).is_err());
}

#[test]
fn test_plan_release_path_relationship_with_force() {
    let db = Database::new();
    assert!(release(&db, ReleaseOptions::new(key("/unrelated/path")).with_force(true)).is_ok());
}

#[test]
fn test_plan_release_path_relationship_with_allow_flag() {
    let db = Database::new();
    assert!(release(&db, ReleaseOptions::new(key("/unrelated/path")).with_allow_unrelated_path(true)).is_ok());
}

#[test]
fn test_plan_release_within_working_dir_needs_no_flag() {
    let db = Database::new();
    assert!(release(&db, ReleaseOptions::new(key("/work/dir/sub"))).is_ok());
    assert!(release(&db, ReleaseOptions::new(key("/work"))).is_ok());
}

// ---------------------------------------------------------------- reserve

#[test]
fn test_reserve_options_new() {
    let options = ReserveOptions::new(key("/path"), Some(Port::try_from(8080).unwrap()));
    assert!(!options.force);
    assert!(!options.allow_unrelated_path);
    assert!(!options.allow_project_change);
    assert!(!options.allow_task_change);
}

#[test]
fn test_reserve_options_builder() {
    let options = ReserveOptions::new(key("/path"), Some(Port::try_from(8080).unwrap()))
        .with_project(Some("test-project".to_string()))
        .with_task(Some("test-task".to_string()))
        .with_force(true)
        .with_allow_unrelated_path(true);
    assert!(options.force);
    assert!(options.allow_unrelated_path);
    assert_eq!(options.project, Some("test-project".to_string()));
    assert_eq!(options.task, Some("test-task".to_string()));
}

#[test]
fn test_plan_new_reservation() {
    let db = Database::new();
    let options = ReserveOptions::new(key("/test/path"), Some(Port::try_from(8080).unwrap())).with_allow_unrelated_path(true);
    let plan = reserve(&db, &create_test_config(), options).unwrap();
    assert_eq!(plan.len(), 1);
    assert!(matches!(plan.actions[0], PlanAction::CreateReservation(_)));
}

fn db_with(project: Option<&str>, task: Option<&str>) -> Database {
    let mut db = Database::new();
    let reservation = Reservation::builder(key("/test/path"), Port::try_from(8080).unwrap())
        .project(project.map(|p| p.to_string()))
        .task(task.map(|t| t.to_string()))
        .build()
        .unwrap();
    db.create_reservation(&reservation).unwrap();
    db
}

#[test]
fn test_plan_existing_reservation_idempotent() {
    let db = db_with(None, None);
    let options = ReserveOptions::new(key("/test/path"), Some(Port::try_from(8080).unwrap())).with_allow_unrelated_path(true);
    let plan = reserve(&db, &create_test_config(), options).unwrap();
    assert_eq!(plan.len(), 1);
    assert!(matches!(plan.actions[0], PlanAction::UpdateLastUsed(_)));
}

#[test]
fn test_plan_sticky_field_project_change_denied() {
    let db = db_with(Some("project1"), None);
    let options = ReserveOptions::new(key("/test/path"), Some(Port::try_from(8080).unwrap()))
        .with_project(Some("project2".to_string()))
        .with_allow_unrelated_path(true);
    let result = reserve(&db, &create_test_config(), options);
    assert!(matches!(result.unwrap_err(), Error::StickyFieldChange { .. }));
}

#[test]
fn test_plan_sticky_field_project_change_with_force() {
    let db = db_with(Some("project1"), None);
    let options = ReserveOptions::new(key("/test/path"), Some(Port::try_from(8080).unwrap()))
        .with_project(Some("project2".to_string()))
        .with_force(true)
        .with_allow_unrelated_path(true);
    assert!(reserve(&db, &create_test_config(), options).is_ok());
}

#[test]
fn test_plan_sticky_field_project_change_with_allow_flag() {
    let db = db_with(Some("project1"), None);
    let options = ReserveOptions::new(key("/test/path"), Some(Port::try_from(8080).unwrap()))
        .with_project(Some("project2".to_string()))
        .with_allow_project_change(true)
        .with_allow_unrelated_path(true);
    assert!(reserve(&db, &create_test_config(), options).is_ok());
}

#[test]
fn test_plan_sticky_field_task_change_denied() {
    let db = db_with(None, Some("task1"));
    let options = ReserveOptions::new(key("/test/path"), Some(Port::try_from(8080).unwrap()))
        .with_task(Some("task2".to_string()))
        .with_allow_unrelated_path(true);
    let result = reserve(&db, &create_test_config(), options);
    assert!(matches!(result.unwrap_err(), Error::StickyFieldChange { .. }));
}

#[test]
fn test_plan_automatic_allocation() {
    let db = Database::new();
    let k = key("/test/path");
    let options = ReserveOptions::new(k.clone(), None).with_allow_unrelated_path(true);
    let plan = reserve(&db, &create_test_config(), options).unwrap();
    assert_eq!(plan.len(), 1);
    match &plan.actions[0] {
        PlanAction::CreateReservation(res) => {
            assert!(res.key().same_key(&k));
            assert!(res.port().value() >= 5000);
            assert!(res.port().value() <= 7000);
        }
        _ => panic!("Expected CreateReservation action"),
    }
}

#[test]
fn test_plan_automatic_allocation_exhausted() {
    let mut db = Database::new();
    let config = Config {
        ports: Some(PortConfig { min: 5000, max: Some(5001), max_offset: None }),
        ..Default::default()
    };
    db.create_reservation(&Reservation::builder(key("/test/path1"), Port::try_from(5000).unwrap()).build().unwrap()).unwrap();
    db.create_reservation(&Reservation::builder(key("/test/path2"), Port::try_from(5001).unwrap()).build().unwrap()).unwrap();
    let options = ReserveOptions::new(key("/test/path3"), None).with_allow_unrelated_path(true);
    let result = reserve(&db, &config, options);
    assert!(matches!(result.unwrap_err(), Error::PortExhausted { .. }));
}

#[test]
fn test_plan_automatic_allocation_skips_occupied_ports() {
    let db = Database::new();
    let options = ReserveOptions::new(key("/test/path"), None).with_allow_unrelated_path(true);
    let config = create_test_config();
    let plan = ReservePlan::new(options, &config).build_plan(&db, WORKING_DIR, &vec![5000, 5001]).unwrap();
    match &plan.actions[0] {
        PlanAction::CreateReservation(res) => assert_eq!(res.port().value(), 5002),
        _ => panic!("Expected CreateReservation action"),
    }
}

#[test]
fn test_plan_path_relationship_denied() {
    let db = Database::new();
    let options = ReserveOptions::new(key("/unrelated/path"), Some(Port::try_from(8080).unwrap()));
    let result = reserve(&db, &create_test_config(), options);
    assert!(matches!(result.unwrap_err(), Error::PathRelationshipViolation { .. }));
}

#[test]
fn test_plan_path_relationship_with_force() {
    let db = Database::new();
    let options = ReserveOptions::new(key("/unrelated/path"), Some(Port::try_from(8080).unwrap())).with_force(true);
    assert!(reserve(&db, &create_test_config(), options).is_ok());
}

#[test]
fn test_can_change_field_rules() {
    let a = "a".to_string();
    // force and the specific flag permit any change
    assert!(can_change_field(Some(&a), Some("b"), true, false));
    assert!(can_change_field(None, Some("b"), false, true));
    // the same value is always allowed
    assert!(can_change_field(Some(&a), Some("a"), false, false));
    assert!(can_change_field(None, None, false, false));
    // other changes are refused
    assert!(!can_change_field(Some(&a), Some("A"), false, false));
    assert!(!can_change_field(Some(&a), None, false, false));
    assert!(!can_change_field(None, Some("a"), false, false));
}

#[test]
fn test_reserve_idempotent_for_every_port_sampled() {
    for port in [1u16, 80, 5000, 8080, 65535] {
        let mut db = Database::new();
        let p = Port::try_from(port).unwrap();
        db.create_reservation(&Reservation::builder(key("/test/path"), p).build().unwrap()).unwrap();
        let options = ReserveOptions::new(key("/test/path"), Some(p)).with_allow_unrelated_path(true);
        let plan = reserve(&db, &create_test_config(), options).unwrap();
        assert_eq!(plan.len(), 1);
        assert!(matches!(plan.actions[0], PlanAction::UpdateLastUsed(_)));
    }
}
