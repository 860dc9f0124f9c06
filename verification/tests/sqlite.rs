use codex_runtime::sqlite::{
    advance_open, advance_ready, migrations_match, open_runtime_db, runtime_db,
    try_open_existing_ready_pool, AppliedMigration, DbKind, EmbeddedMigration, MigrationPlan,
    OpenAction, OpenEvent, OpenFailure, OpenPhase, OpenReport, ReadyAction, ReadyEvent, ReadyPhase,
    SqliteConfig,
};

fn plan() -> MigrationPlan {
    MigrationPlan {
        table_name: "_sqlx_migrations".to_string(),
        ignore_missing: false,
        migrations: vec![embedded(1), embedded(2)],
    }
}

fn embedded(version: i64) -> EmbeddedMigration {
    EmbeddedMigration {
        version,
        checksum: vec![version as u8, 7],
    }
}

fn applied(version: i64) -> AppliedMigration {
    AppliedMigration {
        version,
        success: true,
        checksum: vec![version as u8, 7],
    }
}

#[test]
fn ready_logs_db_opens_without_waiting_for_migration_write_lock() {
    let first = open_runtime_db(DbKind::Logs);
    assert_eq!(first.action, OpenAction::TryReady);
    let missing = try_open_existing_ready_pool();
    let missing = advance_ready(&plan(), missing.phase, ReadyEvent::File { exists: false });
    assert_eq!(missing.action, ReadyAction::GiveUp { close: false });
    let opening = advance_open(DbKind::Logs, first.phase, OpenEvent::NotReady);
    assert_eq!(opening.action, OpenAction::Open(SqliteConfig::open_read_write_pool()));
    let migrating = advance_open(DbKind::Logs, opening.phase, OpenEvent::Done);
    assert_eq!(migrating.action, OpenAction::Migrate);
    let used = advance_open(DbKind::Logs, migrating.phase, OpenEvent::Done);
    assert_eq!(used.action, OpenAction::Use);

    let again = open_runtime_db(DbKind::Logs);
    let step = try_open_existing_ready_pool();
    let step = advance_ready(&plan(), step.phase, ReadyEvent::File { exists: true });
    let connection = SqliteConfig::open_ready_pool();
    assert_eq!(step.action, ReadyAction::Open(connection));
    assert!(!connection.create_if_missing);
    assert!(!connection.set_wal_journal);
    assert!(!connection.set_incremental_vacuum);
    let step = advance_ready(&plan(), step.phase, ReadyEvent::Opened);
    assert_eq!(step.action, ReadyAction::ReadJournalMode);
    let step = advance_ready(&plan(), step.phase, ReadyEvent::JournalMode("WAL".to_string()));
    assert_eq!(step.action, ReadyAction::LookForTable);
    let step = advance_ready(&plan(), step.phase, ReadyEvent::Table { exists: true });
    assert_eq!(step.action, ReadyAction::ReadMigrations);
    let step = advance_ready(
        &plan(),
        step.phase,
        ReadyEvent::Migrations(vec![applied(1), applied(2)]),
    );
    assert_eq!(step.action, ReadyAction::Use);
    let reopened = advance_open(DbKind::Logs, again.phase, OpenEvent::Done);
    assert_eq!(reopened.action, OpenAction::Use);
    assert_eq!(reopened.report, Some(OpenReport::Open));
}

#[test]
fn a_database_is_given_up_where_it_is_not_ready() {
    let mut other = plan();
    other.table_name = "other".to_string();
    let give_up = ReadyAction::GiveUp { close: true };
    let journal = |mode: &str| ReadyEvent::JournalMode(mode.to_string());
    assert_eq!(
        advance_ready(&other, ReadyPhase::ReadingJournal, journal("wal")).action,
        give_up
    );
    let step = advance_ready(&plan(), ReadyPhase::ReadingJournal, journal("delete"));
    assert_eq!(step.phase, ReadyPhase::LookingForTable { wal: false });
    assert_eq!(
        advance_ready(&plan(), step.phase, ReadyEvent::Table { exists: true }).action,
        give_up
    );
    assert_eq!(
        advance_ready(
            &plan(),
            ReadyPhase::LookingForTable { wal: true },
            ReadyEvent::Table { exists: false }
        )
        .action,
        give_up
    );
    assert_eq!(
        advance_ready(
            &plan(),
            ReadyPhase::ReadingMigrations,
            ReadyEvent::Migrations(vec![applied(1)])
        )
        .action,
        give_up
    );
}

#[test]
fn migrations_match_one_for_one() {
    let mut plan = plan();
    assert!(migrations_match(&plan, &vec![applied(2), applied(1)]));
    assert!(!migrations_match(&plan, &vec![applied(1)]));
    let mut failed = applied(2);
    failed.success = false;
    assert!(!migrations_match(&plan, &vec![applied(1), applied(2), failed]));
    let mut changed = applied(2);
    changed.checksum = vec![2, 8];
    assert!(!migrations_match(&plan, &vec![applied(1), changed]));
    let unknown = || vec![applied(1), applied(2), applied(3)];
    assert!(!migrations_match(&plan, &unknown()));
    plan.ignore_missing = true;
    assert!(migrations_match(&plan, &unknown()));
}

#[test]
fn only_the_state_database_is_mended() {
    let step = open_runtime_db(DbKind::State);
    assert_eq!(step.phase, OpenPhase::Opening);
    let step = advance_open(DbKind::State, step.phase, OpenEvent::Done);
    assert_eq!(step.action, OpenAction::RepairLegacy);
    let failed = advance_open(DbKind::State, step.phase, OpenEvent::Failed);
    assert_eq!(failed.action, OpenAction::Close);
    assert_eq!(failed.report, Some(OpenReport::Migrate));
    let step = advance_open(DbKind::State, step.phase, OpenEvent::Done);
    assert_eq!(step.action, OpenAction::Migrate);
    let step = advance_open(DbKind::Goals, OpenPhase::Opening, OpenEvent::Done);
    assert_eq!(step.action, OpenAction::Migrate);
}

#[test]
fn failures_name_their_operation() {
    let ready = advance_open(DbKind::Logs, OpenPhase::TryingReady, OpenEvent::Failed);
    assert_eq!(ready.action, OpenAction::Fail(OpenFailure::OpenReady));
    assert_eq!(OpenFailure::OpenReady.operation(), "open ready");
    let open = advance_open(DbKind::Queue, OpenPhase::Opening, OpenEvent::Failed);
    assert_eq!(open.action, OpenAction::Fail(OpenFailure::Open));
    assert_eq!(OpenFailure::Open.operation(), "open");
    let closing = advance_open(DbKind::Queue, OpenPhase::Migrating, OpenEvent::Failed);
    assert_eq!(closing.action, OpenAction::Close);
    let failed = advance_open(DbKind::Queue, closing.phase, OpenEvent::Done);
    assert_eq!(failed.action, OpenAction::Fail(OpenFailure::Migrate));
    assert_eq!(OpenFailure::Migrate.operation(), "migrate");
}

#[test]
fn paths_lie_in_the_home() {
    let config = SqliteConfig::new_for_testing("/home/codex".to_string());
    assert_eq!(config.home(), "/home/codex");
    let separator = std::path::MAIN_SEPARATOR;
    let at = |name: &str| format!("/home/codex{separator}{name}");
    assert_eq!(config.state_db_path(), at("state_5.sqlite"));
    assert_eq!(config.logs_db_path(), at("logs_2.sqlite"));
    assert_eq!(config.goals_db_path(), at("goals_1.sqlite"));
    assert_eq!(config.memories_db_path(), at("memories_1.sqlite"));
    assert_eq!(config.queue_db_path(), at("queue_1.sqlite"));
    assert_eq!(config.thread_history_db_path(), at("thread_history_1.sqlite"));
    let listed: Vec<(&str, String)> = config
        .runtime_db_paths()
        .into_iter()
        .map(|entry| (entry.label, entry.path))
        .collect();
    assert_eq!(
        listed,
        vec![
            ("state DB", at("state_5.sqlite")),
            ("log DB", at("logs_2.sqlite")),
            ("goals DB", at("goals_1.sqlite")),
            ("memories DB", at("memories_1.sqlite")),
            ("queue DB", at("queue_1.sqlite")),
            ("thread history DB", at("thread_history_1.sqlite")),
        ]
    );
    let slash = SqliteConfig::from_sqlite_home("/home/codex/".to_string());
    assert_eq!(slash.state_db_path(), "/home/codex/state_5.sqlite");
}

#[test]
fn phases_are_named_after_their_database() {
    let spec = runtime_db(DbKind::ThreadHistory);
    assert_eq!(spec.open_phase, "open_thread_history");
    assert_eq!(spec.migrate_phase, "migrate_thread_history");
    assert!(SqliteConfig::open_read_only_pool().read_only);
    assert_eq!(SqliteConfig::open_read_only_pool().max_connections, 1);
    assert_eq!(SqliteConfig::open_read_write_pool().busy_timeout_seconds, Some(5));
}
