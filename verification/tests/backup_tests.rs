use odoo_backup::BackupManager;
use odoo_backup::DatabaseConfig;

fn create_test_database_config() -> DatabaseConfig {
    DatabaseConfig {
        name: "Test Client".to_string(),
        database_name: "test_database".to_string(),
        url: "http://localhost:8069".to_string(),
        container_name: "test_container".to_string(),
        master_password: "admin".to_string(),
        backup_format: "zip".to_string(),
        output_path: "/tmp/backups".to_string(),
        retention_days: 30,
    }
}

fn create_test_backup_manager() -> BackupManager {
    BackupManager::new("./test_backups".to_string())
}

#[test]
fn test_backup_manager_creation() {
    let backup_manager = create_test_backup_manager();
    assert_eq!(backup_manager.host_backup_dir, "./test_backups");
}

#[test]
fn backup_test_database_config_creation() {
    let config = create_test_database_config();
    assert_eq!(config.name, "Test Client");
    assert_eq!(config.database_name, "test_database");
    assert_eq!(config.url, "http://localhost:8069");
    assert_eq!(config.container_name, "test_container");
    assert_eq!(config.master_password, "admin");
    assert_eq!(config.backup_format, "zip");
    assert_eq!(config.output_path, "/tmp/backups");
    assert_eq!(config.retention_days, 30);
}

#[test]
fn test_backup_filename_pattern() {
    let config = create_test_database_config();
    let timestamp = "20240101_120000";
    let backup_filename = format!(
        "backup_{}_{}.{}",
        config.database_name, timestamp, config.backup_format
    );

    assert_eq!(backup_filename, "backup_test_database_20240101_120000.zip");
    assert!(backup_filename.contains(&config.database_name));
    assert!(backup_filename.contains(&config.backup_format));
    assert!(backup_filename.contains(timestamp));
}

#[test]
fn test_backup_path_construction() {
    let config = create_test_database_config();
    let backup_filename = "backup_test_database_20240101_120000.zip";
    let container_backup_path = format!("{}/{}", config.output_path, backup_filename);

    assert_eq!(
        container_backup_path,
        "/tmp/backups/backup_test_database_20240101_120000.zip"
    );
}

#[test]
fn test_backup_file_filtering() {
    let config = create_test_database_config();
    let filename1 = "backup_test_database_20240101_120000.zip";
    let filename2 = "backup_other_database_20240101_120000.zip";
    let filename3 = "backup_test_database_20240102_120000.zip";

    // Test filtering logic
    assert!(filename1.contains(&config.database_name));
    assert!(!filename2.contains(&config.database_name));
    assert!(filename3.contains(&config.database_name));
}

#[test]
fn test_backup_file_extension() {
    let config = create_test_database_config();
    let backup_filename = format!("backup_{}.{}", config.database_name, config.backup_format);

    assert!(backup_filename.ends_with(&config.backup_format));
    assert!(backup_filename.ends_with(".zip"));
}

#[test]
fn test_multiple_database_configs() {
    let configs = vec![
        create_test_database_config(),
        DatabaseConfig {
            name: "Test Client 2".to_string(),
            database_name: "test_database_2".to_string(),
            url: "http://localhost:8069".to_string(),
            container_name: "test_container_2".to_string(),
            master_password: "admin".to_string(),
            backup_format: "dump".to_string(),
            output_path: "/tmp/backups".to_string(),
            retention_days: 7,
        },
    ];

    assert_eq!(configs.len(), 2);
    assert_eq!(configs[0].backup_format, "zip");
    assert_eq!(configs[1].backup_format, "dump");
    assert_eq!(configs[0].retention_days, 30);
    assert_eq!(configs[1].retention_days, 7);
}

#[test]
fn test_backup_manager_with_custom_directory() {
    let custom_dir = "/custom/backup/path";
    let backup_manager = BackupManager::new(custom_dir.to_string());

    assert_eq!(backup_manager.host_backup_dir, custom_dir);
}

#[test]
fn test_retention_policy_different_formats() {
    let zip_config = DatabaseConfig {
        name: "ZIP Client".to_string(),
        database_name: "zip_database".to_string(),
        url: "http://localhost:8069".to_string(),
        container_name: "zip_container".to_string(),
        master_password: "admin".to_string(),
        backup_format: "zip".to_string(),
        output_path: "/tmp/backups".to_string(),
        retention_days: 30,
    };

    let dump_config = DatabaseConfig {
        name: "DUMP Client".to_string(),
        database_name: "dump_database".to_string(),
        url: "http://localhost:8069".to_string(),
        container_name: "dump_container".to_string(),
        master_password: "admin".to_string(),
        backup_format: "dump".to_string(),
        output_path: "/tmp/backups".to_string(),
        retention_days: 7,
    };

    assert_eq!(zip_config.retention_days, 30);
    assert_eq!(dump_config.retention_days, 7);
    assert_eq!(zip_config.backup_format, "zip");
    assert_eq!(dump_config.backup_format, "dump");
}
