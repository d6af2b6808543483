use cleopatra::config::{
    default_auth_enabled, default_data_retention_days, default_maintenance_cron,
    default_maintenance_enabled, default_wal, default_wal_autocheckpoint, AuthConfig, Config,
    DataRetentionConfig, DatabaseConfig, ExecutionSuggestConfig, NamedRetentionConfig,
    NamedWriterConfig, ServerConfig, WriterConfig,
};
use cleopatra::lifecycle::{shutdown_steps, startup_steps, ShutdownStep, StartupStep};
use cleopatra::sweeper::{create_tasks, sqlite_clean_up_task, SweepGuard};

fn config() -> Config {
    Config {
        server: ServerConfig { host: "127.0.0.1".to_string(), port: 8080 },
        database: DatabaseConfig {
            url: "sqlite::memory:".to_string(),
            max_connections: 4,
            wal: default_wal(),
            wal_autocheckpoint: default_wal_autocheckpoint(),
        },
        writers: vec![
            NamedWriterConfig {
                name: "main".to_string(),
                config: WriterConfig { batch_size: 100, flush_interval_ms: 250 },
            },
            NamedWriterConfig {
                name: "main".to_string(),
                config: WriterConfig { batch_size: 1, flush_interval_ms: 1 },
            },
        ],
        auth: AuthConfig { enabled: default_auth_enabled(), secret_path: None, algorithm: None },
        data_retention: vec![NamedRetentionConfig {
            name: "main".to_string(),
            config: DataRetentionConfig {
                enabled: true,
                period_in_day: default_data_retention_days(),
                cron: default_maintenance_cron(),
            },
        }],
        execution_suggest: ExecutionSuggestConfig {
            enabled: true,
            min_query_len: 2,
            max_query_len: 10,
            max_candidates: 10,
        },
    }
}

#[test]
fn the_defaults_are_as_documented() {
    assert!(default_wal());
    assert_eq!(default_wal_autocheckpoint(), 1000);
    assert!(!default_auth_enabled());
    assert!(!default_maintenance_enabled());
    assert_eq!(default_data_retention_days(), 90);
    assert_eq!(default_maintenance_cron(), "0 0 3 * * Sun");
}

#[test]
fn settings_without_auth_are_in_order() {
    assert_eq!(config().validate(), Ok(()));
}

#[test]
fn enabled_auth_needs_path_and_algorithm() {
    let message = "Auth is enabled but secret_path and algorithm are required".to_string();
    let mut c = config();
    c.auth.enabled = true;
    assert_eq!(c.validate(), Err(message.clone()));
    c.auth.secret_path = Some("key".to_string());
    assert_eq!(c.validate(), Err(message.clone()));
    c.auth.secret_path = None;
    c.auth.algorithm = Some("HS256".to_string());
    assert_eq!(c.validate(), Err(message));
    c.auth.secret_path = Some("key".to_string());
    assert_eq!(c.validate(), Ok(()));
}

#[test]
fn a_writer_is_found_by_its_name() {
    let c = config();
    assert_eq!(c.writer("main"), Some(WriterConfig { batch_size: 100, flush_interval_ms: 250 }));
    assert_eq!(c.writer("Main"), None);
    assert_eq!(c.writer(""), None);
}

#[test]
fn a_retention_rule_is_found_by_its_name() {
    let c = config();
    assert_eq!(c.retention("main").expect("the rule").period_in_day, 90);
    assert!(c.retention("other").is_none());
}

#[test]
fn the_sweep_is_scheduled_where_the_rule_is_enabled() {
    let c = config();
    let task = sqlite_clean_up_task(&c).expect("a task");
    assert_eq!(task.cron, "0 0 3 * * Sun");
    assert_eq!(task.period_in_day, 90);
    assert_eq!(create_tasks(&c).len(), 1);
}

#[test]
fn no_sweep_without_an_enabled_rule() {
    let mut c = config();
    c.data_retention[0].config.enabled = false;
    assert!(sqlite_clean_up_task(&c).is_none());
    assert!(create_tasks(&c).is_empty());
    c.data_retention[0].config.enabled = true;
    c.data_retention[0].name = "archive".to_string();
    assert!(sqlite_clean_up_task(&c).is_none());
    c.data_retention.clear();
    assert!(create_tasks(&c).is_empty());
}

#[test]
fn a_trigger_during_a_run_is_skipped() {
    let mut guard = SweepGuard::new();
    assert!(guard.try_start());
    assert!(!guard.try_start());
    assert!(!guard.try_start());
    guard.finish();
    assert!(guard.try_start());
}

#[test]
fn the_service_comes_up_in_order() {
    let mut c = config();
    assert_eq!(
        startup_steps(&c),
        vec![
            StartupStep::OpenPools,
            StartupStep::RunMigrations,
            StartupStep::StartWriters,
            StartupStep::BuildSuggestIndex,
            StartupStep::StartSweeper,
            StartupStep::BindListener,
        ]
    );
    c.execution_suggest.enabled = false;
    c.auth.enabled = true;
    assert_eq!(
        startup_steps(&c),
        vec![
            StartupStep::OpenPools,
            StartupStep::RunMigrations,
            StartupStep::StartWriters,
            StartupStep::BuildVerifier,
            StartupStep::StartSweeper,
            StartupStep::BindListener,
        ]
    );
}

#[test]
fn the_service_goes_down_in_order() {
    assert_eq!(
        shutdown_steps(),
        vec![
            ShutdownStep::StopAccepting,
            ShutdownStep::CloseWriters,
            ShutdownStep::AwaitDrain,
            ShutdownStep::ClosePools,
        ]
    );
}
