use odoo_backup::backup::ArtifactEntry;
use odoo_backup::backup::BackupPhase;
use odoo_backup::backup::GatewayEvent;
use odoo_backup::BackupError;
use odoo_backup::BackupManager;

fn manager() -> BackupManager {
    BackupManager::new("/var/backups/odoo".to_string())
}

#[test]
fn test_backup_lifecycle_happy_path() {
    let m = manager();
    let phase = BackupPhase::EnsuringHostDir;
    let phase = m.advance(phase, GatewayEvent::DirEnsured).unwrap();
    assert!(matches!(phase, BackupPhase::RunningBackup));
    let phase = m
        .advance(
            phase,
            GatewayEvent::BackupProduced {
                container_path: "/tmp/backups/backup_db_20240101_120000.zip".to_string(),
            },
        )
        .unwrap();
    assert!(matches!(phase, BackupPhase::CopyingToHost { .. }));
    let phase = m
        .advance(
            phase,
            GatewayEvent::CopyCompleted {
                host_path: "/var/backups/odoo/backup_db_20240101_120000.zip".to_string(),
            },
        )
        .unwrap();
    assert!(matches!(phase, BackupPhase::CleaningRemote { .. }));
    let phase = m.advance(phase, GatewayEvent::CleanupCompleted).unwrap();
    match phase {
        BackupPhase::Complete { host_path } => {
            assert_eq!(host_path, "/var/backups/odoo/backup_db_20240101_120000.zip");
        }
        _ => panic!("Expected the backup to complete"),
    }
}

#[test]
fn test_cleanup_failure_does_not_fail_backup() {
    let m = manager();
    let phase = BackupPhase::CleaningRemote {
        container_path: "/tmp/backups/backup_db_20240101_120000.zip".to_string(),
        host_path: "/var/backups/odoo/backup_db_20240101_120000.zip".to_string(),
    };
    let after = m
        .advance(
            phase,
            GatewayEvent::CleanupFailed {
                error: BackupError::Docker("rm failed".to_string()),
            },
        )
        .unwrap();
    match after {
        BackupPhase::Complete { host_path } => {
            assert_eq!(host_path, "/var/backups/odoo/backup_db_20240101_120000.zip");
        }
        _ => panic!("A cleanup failure must not change a successful outcome"),
    }
}

#[test]
fn test_step_failure_aborts_backup() {
    let m = manager();
    let after = m
        .advance(
            BackupPhase::RunningBackup,
            GatewayEvent::BackupFailed {
                error: BackupError::Docker("trigger failed".to_string()),
            },
        )
        .unwrap();
    assert!(matches!(after, BackupPhase::Failed { .. }));
}

#[test]
fn test_batch_collects_successes_and_failures_in_order() {
    let m = manager();
    let outcomes: Vec<(String, Result<String, BackupError>)> = vec![
        ("Client A".to_string(), Ok("/var/backups/odoo/a.zip".to_string())),
        (
            "Client B".to_string(),
            Err(BackupError::Docker("Container 'b' is not running".to_string())),
        ),
        ("Client C".to_string(), Ok("/var/backups/odoo/c.zip".to_string())),
    ];
    let (successes, failures) = m.collect_backup_outcomes(outcomes);

    assert_eq!(successes.len(), 2);
    assert_eq!(failures.len(), 1);
    assert_eq!(successes[0].0, "Client A");
    assert_eq!(successes[0].1, "/var/backups/odoo/a.zip");
    assert_eq!(successes[1].0, "Client C");
    assert_eq!(
        failures[0],
        "Failed to backup Client B: Docker error: Container 'b' is not running"
    );
}

#[test]
fn test_batch_all_failures_leaves_no_successes() {
    let m = manager();
    let outcomes: Vec<(String, Result<String, BackupError>)> = vec![
        ("One".to_string(), Err(BackupError::FileSystem("disk full".to_string()))),
        ("Two".to_string(), Err(BackupError::Docker("gone".to_string()))),
    ];
    let (successes, failures) = m.collect_backup_outcomes(outcomes);
    assert!(successes.is_empty());
    assert_eq!(failures.len(), 2);
    assert_eq!(failures[0], "Failed to backup One: File system error: disk full");
    assert_eq!(failures[1], "Failed to backup Two: Docker error: gone");
}

#[test]
fn test_retention_deletes_only_files_older_than_cutoff() {
    let m = manager();
    let cutoff: i128 = 1_000_000;
    let entries = vec![
        ArtifactEntry {
            filename: "backup_test_database_20240101_120000.zip".to_string(),
            modified_secs: 999_999,
        },
        ArtifactEntry {
            filename: "backup_test_database_20240102_120000.zip".to_string(),
            modified_secs: 1_000_001,
        },
    ];
    let deleted = m.select_expired_backups(&entries, "test_database", cutoff);
    assert_eq!(deleted.len(), 1);
    assert_eq!(deleted[0], "backup_test_database_20240101_120000.zip");
}

#[test]
fn test_retention_never_deletes_nonmatching_names() {
    let m = manager();
    let cutoff: i128 = 1_000_000;
    let entries = vec![
        ArtifactEntry {
            filename: "backup_other_database_20200101_120000.zip".to_string(),
            modified_secs: 0,
        },
        ArtifactEntry { filename: "notes.txt".to_string(), modified_secs: -5 },
    ];
    let deleted = m.select_expired_backups(&entries, "test_database", cutoff);
    assert!(deleted.is_empty());
}

#[test]
fn test_retention_boundary_is_strict() {
    let m = manager();
    let cutoff: i128 = 1_000_000;
    let entries = vec![ArtifactEntry {
        filename: "backup_test_database_20240101_120000.zip".to_string(),
        modified_secs: 1_000_000,
    }];
    // A file modified exactly at the cutoff is kept.
    let deleted = m.select_expired_backups(&entries, "test_database", cutoff);
    assert!(deleted.is_empty());
}

#[test]
fn test_retention_second_sweep_deletes_nothing() {
    let m = manager();
    let cutoff: i128 = 1_000_000;
    let entries = vec![
        ArtifactEntry { filename: "backup_db_a.zip".to_string(), modified_secs: 10 },
        ArtifactEntry { filename: "backup_db_b.zip".to_string(), modified_secs: 2_000_000 },
    ];
    let deleted = m.select_expired_backups(&entries, "db", cutoff);
    assert_eq!(deleted, vec!["backup_db_a.zip"]);

    let survivors: Vec<ArtifactEntry> = entries
        .into_iter()
        .filter(|e| !deleted.contains(&e.filename))
        .collect();
    let deleted_again = m.select_expired_backups(&survivors, "db", cutoff);
    assert_eq!(deleted_again.len(), 0);
}

#[test]
fn test_retention_cutoff_value() {
    let m = manager();
    assert_eq!(m.retention_cutoff(1_000_000_000, 30), 1_000_000_000 - 30 * 86_400);
    assert_eq!(m.retention_cutoff(0, 1), -86_400);
}

#[test]
fn test_substring_prefix_ambiguity_is_preserved() {
    // A subject identifier that is a prefix of another matches both targets'
    // artifacts; this mirrors the documented matching behavior.
    let m = manager();
    let cutoff: i128 = 100;
    let entries = vec![
        ArtifactEntry { filename: "backup_db_20240101.zip".to_string(), modified_secs: 0 },
        ArtifactEntry { filename: "backup_db2_20240101.zip".to_string(), modified_secs: 0 },
    ];
    let deleted = m.select_expired_backups(&entries, "db", cutoff);
    assert_eq!(deleted.len(), 2);
}

#[test]
fn test_list_backups_absent_root_is_empty() {
    let m = manager();
    let listed = m.list_backups(None, None);
    assert!(listed.is_empty());

    let listed_filtered = m.list_backups(None, Some("test_database"));
    assert!(listed_filtered.is_empty());
}

#[test]
fn test_list_backups_empty_root_is_empty() {
    let m = manager();
    let names: Vec<String> = vec![];
    let listed = m.list_backups(Some(&names), None);
    assert!(listed.is_empty());
}

#[test]
fn test_list_backups_sorts_ascending() {
    let m = manager();
    let names: Vec<String> = vec![
        "backup_zeta.zip".to_string(),
        "backup_alpha.zip".to_string(),
        "backup_mid.zip".to_string(),
    ];
    let listed = m.list_backups(Some(&names), None);
    assert_eq!(listed, vec!["backup_alpha.zip", "backup_mid.zip", "backup_zeta.zip"]);
}

#[test]
fn test_list_backups_applies_filter() {
    let m = manager();
    let names: Vec<String> = vec![
        "backup_test_database_20240102_120000.zip".to_string(),
        "backup_other_database_20240101_120000.zip".to_string(),
        "backup_test_database_20240101_120000.zip".to_string(),
    ];
    let listed = m.list_backups(Some(&names), Some("test_database"));
    assert_eq!(
        listed,
        vec![
            "backup_test_database_20240101_120000.zip",
            "backup_test_database_20240102_120000.zip",
        ]
    );
}
