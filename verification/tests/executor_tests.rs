use trop::database::Database;
use trop::operations::executor::PlanExecutor;
use trop::operations::plan::{OperationPlan, PlanAction};
use trop::port::Port;
use trop::reservation::{Reservation, ReservationKey};

fn key(path: &str) -> ReservationKey {
    ReservationKey::new(path.to_string(), None).unwrap()
}

#[test]
fn test_execute_create_reservation() {
    let mut db = Database::new();
    let key = key("/test/path");
    let port = Port::try_from(8080).unwrap();
    let reservation = Reservation::builder(key.clone(), port).build().unwrap();
    let plan = OperationPlan::new("Test").add_action(PlanAction::CreateReservation(reservation.clone()));
    let mut executor = PlanExecutor::new(&mut db);
    let result = executor.execute(&plan).unwrap();
    assert!(result.success);
    assert!(!result.dry_run);
    assert_eq!(result.actions_taken.len(), 1);
    let loaded = db.get_reservation(&key);
    assert!(loaded.is_some());
    assert_eq!(loaded.unwrap().port(), port);
}

#[test]
fn test_execute_update_last_used() {
    let mut db = Database::new();
    let key = key("/test/path");
    let port = Port::try_from(8080).unwrap();
    let reservation = Reservation::builder(key.clone(), port).created_at(1_000).last_used_at(1_000).build().unwrap();
    db.create_reservation(&reservation).unwrap();
    let plan = OperationPlan::new("Test").add_action(PlanAction::UpdateLastUsed(key.clone()));
    let mut executor = PlanExecutor::new(&mut db);
    // Two seconds after the reservation was last used.
    let result = executor.execute_at(&plan, 1_002).unwrap();
    assert!(result.success);
    let loaded = db.get_reservation(&key).unwrap();
    assert!(loaded.last_used_at() > reservation.last_used_at());
    assert_eq!(loaded.last_used_at(), 1_002);
}

#[test]
fn test_execute_delete_reservation() {
    let mut db = Database::new();
    let key = key("/test/path");
    let reservation = Reservation::builder(key.clone(), Port::try_from(8080).unwrap()).build().unwrap();
    db.create_reservation(&reservation).unwrap();
    let plan = OperationPlan::new("Test").add_action(PlanAction::DeleteReservation(key.clone()));
    let mut executor = PlanExecutor::new(&mut db);
    let result = executor.execute(&plan).unwrap();
    assert!(result.success);
    assert!(db.get_reservation(&key).is_none());
}

#[test]
fn test_dry_run_does_not_modify_database() {
    let mut db = Database::new();
    let key = key("/test/path");
    let reservation = Reservation::builder(key.clone(), Port::try_from(8080).unwrap()).build().unwrap();
    let plan = OperationPlan::new("Test").add_action(PlanAction::CreateReservation(reservation));
    let mut executor = PlanExecutor::new(&mut db).dry_run();
    let result = executor.execute(&plan).unwrap();
    assert!(result.success);
    assert!(result.dry_run);
    assert!(db.get_reservation(&key).is_none());
}

#[test]
fn test_execute_multiple_actions() {
    let mut db = Database::new();
    let key1 = key("/test/path1");
    let key2 = key("/test/path2");
    let r1 = Reservation::builder(key1.clone(), Port::try_from(8080).unwrap()).build().unwrap();
    let r2 = Reservation::builder(key2.clone(), Port::try_from(8081).unwrap()).build().unwrap();
    let plan = OperationPlan::new("Test")
        .add_action(PlanAction::CreateReservation(r1))
        .add_action(PlanAction::CreateReservation(r2));
    let mut executor = PlanExecutor::new(&mut db);
    let result = executor.execute(&plan).unwrap();
    assert!(result.success);
    assert_eq!(result.actions_taken.len(), 2);
    assert!(db.get_reservation(&key1).is_some());
    assert!(db.get_reservation(&key2).is_some());
}

#[test]
fn test_execution_result_includes_warnings() {
    let mut db = Database::new();
    let plan = OperationPlan::new("Test").add_warning("Warning 1").add_warning("Warning 2");
    let mut executor = PlanExecutor::new(&mut db);
    let result = executor.execute(&plan).unwrap();
    assert_eq!(result.warnings.len(), 2);
    assert_eq!(result.warnings[0], "Warning 1");
    assert_eq!(result.warnings[1], "Warning 2");
}

#[test]
fn test_extract_port_from_create_action() {
    let mut db = Database::new();
    let port = Port::try_from(8080).unwrap();
    let reservation = Reservation::builder(key("/test/path"), port).build().unwrap();
    let plan = OperationPlan::new("Test").add_action(PlanAction::CreateReservation(reservation));
    let mut executor = PlanExecutor::new(&mut db);
    let result = executor.execute(&plan).unwrap();
    assert_eq!(result.port, Some(port));
}

#[test]
fn test_extract_port_from_update_last_used() {
    let mut db = Database::new();
    let key = key("/test/path");
    let port = Port::try_from(8080).unwrap();
    let reservation = Reservation::builder(key.clone(), port).build().unwrap();
    db.create_reservation(&reservation).unwrap();
    let plan = OperationPlan::new("Test").add_action(PlanAction::UpdateLastUsed(key));
    let mut executor = PlanExecutor::new(&mut db);
    let result = executor.execute(&plan).unwrap();
    assert_eq!(result.port, Some(port));
}

#[test]
fn test_action_descriptions_are_reported() {
    let mut db = Database::new();
    let key = ReservationKey::new("/svc".to_string(), Some("web".to_string())).unwrap();
    let reservation = Reservation::builder(key.clone(), Port::try_from(8080).unwrap()).build().unwrap();
    let plan = OperationPlan::new("Test")
        .add_action(PlanAction::CreateReservation(reservation))
        .add_action(PlanAction::UpdateLastUsed(key.clone()))
        .add_action(PlanAction::DeleteReservation(key));
    let mut executor = PlanExecutor::new(&mut db);
    let result = executor.execute(&plan).unwrap();
    assert_eq!(
        result.actions_taken,
        vec![
            "Create reservation for /svc:web on port 8080".to_string(),
            "Update last_used_at timestamp for /svc:web".to_string(),
            "Delete reservation for /svc:web".to_string(),
        ]
    );
    assert!(db.list_all_reservations().is_empty());
}
