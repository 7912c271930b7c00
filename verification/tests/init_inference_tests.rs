use trop::error::Error;
use trop::operations::inference::{branch_name, file_name, project_from_common_dir, task_from_repository};
use trop::operations::init::{plan_init, InitOptions, DEFAULT_CONFIG_TEMPLATE};

#[test]
fn test_init_fresh_directory() {
    let options = InitOptions::new("/tmp/x/trop".to_string());
    let plan = plan_init(&options, false, false, false).unwrap();
    assert!(plan.create_data_dir);
    assert_eq!(plan.db_path, "/tmp/x/trop/trop.db");
    assert!(!plan.remove_database);
    assert!(plan.write_config.is_none());
    assert!(plan.result.data_dir_created);
    assert!(plan.result.database_created);
    assert!(!plan.result.config_created);
}

#[test]
fn test_init_existing_directory() {
    let options = InitOptions::new("/tmp/x".to_string());
    let plan = plan_init(&options, true, false, false).unwrap();
    assert!(!plan.result.data_dir_created);
    assert!(!plan.create_data_dir);
    assert!(plan.result.database_created);
}

#[test]
fn test_init_with_config() {
    let options = InitOptions::new("/tmp/x/trop".to_string()).with_create_config(true);
    let plan = plan_init(&options, false, false, false).unwrap();
    assert!(plan.result.data_dir_created);
    assert!(plan.result.database_created);
    assert!(plan.result.config_created);
    let (path, text) = plan.write_config.unwrap();
    assert_eq!(path, "/tmp/x/trop/config.yaml");
    assert!(text.contains("Trop Configuration File"));
    assert_eq!(text, DEFAULT_CONFIG_TEMPLATE);
}

#[test]
fn test_init_fails_without_overwrite() {
    let options = InitOptions::new("/tmp/x/trop".to_string());
    match plan_init(&options, true, true, false) {
        Err(Error::Validation { field, message }) => {
            assert_eq!(field, "database");
            assert!(message.contains("already exists"));
            assert!(message.contains("--overwrite"));
            assert_eq!(message, "Database already exists at /tmp/x/trop/trop.db. Use --overwrite to replace it.");
        }
        _ => panic!("Expected validation error"),
    }
}

#[test]
fn test_init_with_overwrite() {
    let options = InitOptions::new("/tmp/x/trop".to_string()).with_overwrite(true);
    let plan = plan_init(&options, true, true, false).unwrap();
    assert!(!plan.result.data_dir_created);
    assert!(plan.remove_database);
    assert!(plan.result.database_created);
}

#[test]
fn test_init_config_not_overwritten() {
    let options = InitOptions::new("/tmp/x/trop".to_string()).with_create_config(true);
    let plan = plan_init(&options, true, false, true).unwrap();
    assert!(!plan.result.config_created);
    assert!(plan.write_config.is_none());
}

#[test]
fn test_branch_name_strips_local_branch_prefix() {
    assert_eq!(branch_name("refs/heads/main"), Some("main".to_string()));
    assert_eq!(branch_name("refs/heads/feature/x"), Some("feature/x".to_string()));
    assert_eq!(branch_name("refs/heads/"), Some(String::new()));
    assert_eq!(branch_name("refs/tags/v1"), None);
    assert_eq!(branch_name("refs/head"), None);
}

#[test]
fn test_file_name_of_paths() {
    assert_eq!(file_name("/home/user/repo"), Some("repo".to_string()));
    assert_eq!(file_name("/home/user/repo/"), Some("repo".to_string()));
    assert_eq!(file_name("/"), None);
    assert_eq!(file_name("/a/.."), None);
    assert_eq!(file_name(""), None);
}

#[test]
fn test_project_from_common_dir() {
    assert_eq!(project_from_common_dir("/home/user/myrepo/.git"), Some("myrepo".to_string()));
    assert_eq!(project_from_common_dir("/.git"), None);
    assert_eq!(project_from_common_dir("/"), None);
}

#[test]
fn test_task_from_repository() {
    assert_eq!(
        task_from_repository(true, Some("/work/feature-wt"), Some("refs/heads/main")),
        Some("feature-wt".to_string())
    );
    assert_eq!(task_from_repository(false, Some("/work/repo"), Some("refs/heads/main")), Some("main".to_string()));
    assert_eq!(task_from_repository(false, Some("/work/repo"), None), None);
    assert_eq!(task_from_repository(true, None, Some("refs/heads/main")), None);
}
