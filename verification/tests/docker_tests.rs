use odoo_backup::DatabaseConfig;
use odoo_backup::DockerManager;

fn create_test_database_config() -> DatabaseConfig {
    DatabaseConfig {
        name: "Test Client".to_string(),
        database_name: "test_database".to_string(),
        url: "http://localhost:8069".to_string(),
        container_name: "test_container".to_string(),
        master_password: "admin".to_string(),
        backup_format: "zip".to_string(),
        output_path: "/tmp/backups".to_string(),
        retention_days: 30,
    }
}

#[test]
fn test_docker_manager_creation() {
    let _docker_manager = DockerManager::new();
    // Just test that we can create the manager
    assert!(true);
}

#[test]
fn docker_test_database_config_creation() {
    let config = create_test_database_config();
    assert_eq!(config.name, "Test Client");
    assert_eq!(config.database_name, "test_database");
    assert_eq!(config.url, "http://localhost:8069");
    assert_eq!(config.container_name, "test_container");
    assert_eq!(config.master_password, "admin");
    assert_eq!(config.backup_format, "zip");
    assert_eq!(config.output_path, "/tmp/backups");
    assert_eq!(config.retention_days, 30);
}

#[test]
fn test_backup_command_construction() {
    let config = create_test_database_config();
    let timestamp = "20240101_120000";
    let backup_filename = format!(
        "backup_{}_{}.{}",
        config.database_name, timestamp, config.backup_format
    );
    let container_backup_path = format!("{}/{}", config.output_path, backup_filename);

    let expected_curl_command = format!(
        "curl -X POST -F 'master_pwd={}' -F 'name={}' -F 'backup_format={}' {} -o {}",
        config.master_password,
        config.database_name,
        config.backup_format,
        format!("{}/web/database/backup", config.url),
        container_backup_path
    );

    // Test that the command construction logic works
    assert!(expected_curl_command.contains("curl -X POST"));
    assert!(expected_curl_command.contains(&config.master_password));
    assert!(expected_curl_command.contains(&config.database_name));
    assert!(expected_curl_command.contains(&config.backup_format));
    assert!(expected_curl_command.contains("/web/database/backup"));
    assert!(expected_curl_command.contains("-o"));
}

#[test]
fn test_backup_filename_generation() {
    let config = create_test_database_config();
    let timestamp = "20240101_120000";
    let backup_filename = format!(
        "backup_{}_{}.{}",
        config.database_name, timestamp, config.backup_format
    );

    assert_eq!(backup_filename, "backup_test_database_20240101_120000.zip");
    assert!(backup_filename.contains(&config.database_name));
    assert!(backup_filename.contains(&config.backup_format));
}

#[test]
fn test_container_path_construction() {
    let config = create_test_database_config();
    let backup_filename = "backup_test_database_20240101_120000.zip";
    let container_backup_path = format!("{}/{}", config.output_path, backup_filename);

    assert_eq!(
        container_backup_path,
        "/tmp/backups/backup_test_database_20240101_120000.zip"
    );
}

#[test]
fn test_host_backup_path_construction() {
    let container_path = "/tmp/backups/backup_test_database_20240101_120000.zip";
    let host_path = "./backups";
    let host_backup_path = format!(
        "{}/{}",
        host_path,
        container_path.split('/').next_back().unwrap_or("backup")
    );

    assert_eq!(
        host_backup_path,
        "./backups/backup_test_database_20240101_120000.zip"
    );
}

#[test]
fn test_docker_command_arguments() {
    let container_name = "test_container";
    let curl_command = "curl -X POST -F 'master_pwd=admin' -F 'name=test_db' -F 'backup_format=zip' http://localhost:8069/web/database/backup -o /tmp/backup.zip";

    let expected_args = vec!["exec", container_name, "sh", "-c", curl_command];

    // Test that the argument construction is correct
    assert_eq!(expected_args[0], "exec");
    assert_eq!(expected_args[1], container_name);
    assert_eq!(expected_args[2], "sh");
    assert_eq!(expected_args[3], "-c");
    assert_eq!(expected_args[4], curl_command);
}

#[test]
fn test_docker_cp_command_construction() {
    let container_name = "test_container";
    let container_path = "/tmp/backups/backup.zip";
    let host_path = "./backups/backup.zip";

    let container_source = format!("{}:{}", container_name, container_path);
    let expected_args = vec!["cp", &container_source, host_path];

    assert_eq!(expected_args[0], "cp");
    assert_eq!(expected_args[1], "test_container:/tmp/backups/backup.zip");
    assert_eq!(expected_args[2], "./backups/backup.zip");
}

#[test]
fn test_docker_rm_command_construction() {
    let container_name = "test_container";
    let file_path = "/tmp/backups/backup.zip";

    let expected_args = vec!["exec", container_name, "rm", "-f", file_path];

    assert_eq!(expected_args[0], "exec");
    assert_eq!(expected_args[1], container_name);
    assert_eq!(expected_args[2], "rm");
    assert_eq!(expected_args[3], "-f");
    assert_eq!(expected_args[4], file_path);
}

#[test]
fn test_library_backup_filename_matches_pattern() {
    let filename = odoo_backup::docker::backup_filename("test_database", "20240101_120000", "zip");
    assert_eq!(filename, "backup_test_database_20240101_120000.zip");
}

#[test]
fn test_library_curl_command_matches_expected() {
    let config = create_test_database_config();
    let target = "/tmp/backups/backup_test_database_20240101_120000.zip";
    let command = odoo_backup::docker::curl_backup_command(&config, target);
    assert_eq!(
        command,
        "curl -X POST -F 'master_pwd=admin' -F 'name=test_database' -F 'backup_format=zip' \
         http://localhost:8069/web/database/backup -o \
         /tmp/backups/backup_test_database_20240101_120000.zip"
    );
}

#[test]
fn test_library_host_backup_path_takes_last_segment() {
    let host_path = odoo_backup::docker::host_backup_path(
        "./backups",
        "/tmp/backups/backup_test_database_20240101_120000.zip",
    );
    assert_eq!(
        host_path,
        "./backups/backup_test_database_20240101_120000.zip"
    );

    let bare = odoo_backup::docker::host_backup_path("./backups", "plain.zip");
    assert_eq!(bare, "./backups/plain.zip");
}

#[test]
fn test_library_shell_exec_args() {
    let docker = DockerManager::new();
    let args = docker.shell_exec_args("test_container", "mkdir -p /tmp/backups");
    assert_eq!(
        args,
        vec!["exec", "test_container", "sh", "-c", "mkdir -p /tmp/backups"]
    );
}

#[test]
fn test_library_copy_and_remove_args() {
    let docker = DockerManager::new();
    let cp = docker.copy_args("test_container", "/tmp/backups/backup.zip", "./backups/backup.zip");
    assert_eq!(
        cp,
        vec!["cp", "test_container:/tmp/backups/backup.zip", "./backups/backup.zip"]
    );

    let rm = docker.remove_args("test_container", "/tmp/backups/backup.zip");
    assert_eq!(
        rm,
        vec!["exec", "test_container", "rm", "-f", "/tmp/backups/backup.zip"]
    );
}

#[test]
fn test_library_running_query_interpretation() {
    let docker = DockerManager::new();
    assert!(docker.is_container_listed("test_container", "test_container\n"));
    assert!(!docker.is_container_listed("test_container", "other_container\n"));
    // Substring matching: a name contained in a longer name also matches.
    assert!(docker.is_container_listed("test", "test_container\n"));
}

#[test]
fn test_library_parse_container_names() {
    let docker = DockerManager::new();
    let names = docker.parse_container_names("one\ntwo\n\nthree\n");
    assert_eq!(names, vec!["one", "two", "three"]);

    let crlf = docker.parse_container_names("alpha\r\nbeta\r\n");
    assert_eq!(crlf, vec!["alpha", "beta"]);

    let empty = docker.parse_container_names("");
    assert!(empty.is_empty());
}

#[test]
fn test_library_not_running_error_message() {
    let docker = DockerManager::new();
    match docker.not_running_error("test_container") {
        odoo_backup::BackupError::Docker(m) => {
            assert_eq!(m, "Container 'test_container' is not running");
        }
        _ => panic!("Expected a docker error"),
    }
}

#[test]
fn test_library_backup_plan_is_consistent() {
    let config = create_test_database_config();
    let docker = DockerManager::new();
    let plan = docker.plan_backup(&config);

    assert_eq!(
        plan.backup_filename,
        format!("backup_test_database_{}.zip", plan.timestamp)
    );
    assert_eq!(
        plan.container_backup_path,
        format!("/tmp/backups/{}", plan.backup_filename)
    );
    assert_eq!(plan.mkdir_args[0], "exec");
    assert_eq!(plan.mkdir_args[1], "test_container");
    assert_eq!(plan.mkdir_args[4], "mkdir -p /tmp/backups");
    assert!(plan.curl_args[4].contains("master_pwd=admin"));
    assert_eq!(
        plan.check_args[4],
        format!("test -f {}", plan.container_backup_path)
    );
}
