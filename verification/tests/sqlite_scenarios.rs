//! Scenario tests that drive the runner against a real in-memory SQLite
//! database: each pending script and its ledger write run in one
//! transaction, so a failing script leaves no partial effect behind.

use migration_runner::migration::{ConfigError, Migration, MigrationKind};
use migration_runner::runner::{ExecutionError, Runner};
use rusqlite::Connection;

const ENSURE_LEDGER: &str =
    "CREATE TABLE IF NOT EXISTS migration_ledger (version INTEGER PRIMARY KEY)";

fn mig(version: u64, description: &str, script: &str) -> Migration {
    Migration {
        version,
        description: description.to_string(),
        script: script.to_string(),
        kind: MigrationKind::Up,
    }
}

fn read_ledger(conn: &Connection) -> Vec<u64> {
    let mut stmt = conn
        .prepare("SELECT version FROM migration_ledger ORDER BY version")
        .unwrap();
    let versions = stmt
        .query_map([], |row| row.get::<_, i64>(0))
        .unwrap()
        .map(|v| v.unwrap() as u64)
        .collect();
    versions
}

/// One migration pass: ensures the ledger table, reads the applied versions,
/// and executes each pending script together with its ledger entry in a
/// single transaction, stopping at the first failure.
fn run_pass(
    conn: &mut Connection,
    migrations: Vec<Migration>,
) -> Result<Vec<u64>, ExecutionError> {
    conn.execute_batch(ENSURE_LEDGER).unwrap();
    let ledger = read_ledger(conn);
    let mut runner =
        Runner::new(migrations, &ledger).expect("invalid migration configuration");
    loop {
        let next = match runner.next_pending() {
            Some(m) => Some((m.version, m.script.clone())),
            None => return Ok(runner.applied_versions()),
        };
        let (version, script) = next.unwrap();
        let tx = conn.transaction().unwrap();
        let ok = tx.execute_batch(&script).is_ok()
            && tx
                .execute(
                    "INSERT INTO migration_ledger (version) VALUES (?1)",
                    [version as i64],
                )
                .is_ok();
        if ok && tx.commit().is_ok() {
            runner.record_success();
        } else {
            return Err(runner.record_failure());
        }
    }
}

#[test]
fn create_then_alter_runs_once_and_reruns_as_noop() {
    let make_list = || {
        vec![
            mig(1, "create_notes", "CREATE TABLE notes (id INTEGER PRIMARY KEY, body TEXT);"),
            mig(2, "add_created_at", "ALTER TABLE notes ADD COLUMN created_at TEXT;"),
        ]
    };
    let mut conn = Connection::open_in_memory().unwrap();

    let applied = run_pass(&mut conn, make_list()).unwrap();
    assert_eq!(applied, vec![1, 2]);
    assert_eq!(read_ledger(&conn), vec![1, 2]);
    // The table exists and carries the added column.
    conn.prepare("SELECT id, body, created_at FROM notes").unwrap();

    // Running again is a no-op: same ledger, no error.
    let applied_again = run_pass(&mut conn, make_list()).unwrap();
    assert_eq!(applied_again, vec![1, 2]);
    assert_eq!(read_ledger(&conn), vec![1, 2]);
}

#[test]
fn invalid_second_script_leaves_first_applied() {
    let list = vec![
        mig(1, "create_notes", "CREATE TABLE notes (id INTEGER PRIMARY KEY);"),
        mig(2, "broken", "THIS IS NOT SQL;"),
    ];
    let mut conn = Connection::open_in_memory().unwrap();

    let err = run_pass(&mut conn, list).unwrap_err();
    // The error names the failing migration.
    assert_eq!(err.version, 2);
    assert_eq!(err.description, "broken");
    // Version 1 was applied and recorded; version 2 is absent.
    assert_eq!(read_ledger(&conn), vec![1]);
    conn.prepare("SELECT id FROM notes").unwrap();
}

#[test]
fn duplicate_versions_leave_the_database_untouched() {
    let list = vec![
        mig(1, "a", "CREATE TABLE notes (id INTEGER);"),
        mig(1, "b", "CREATE TABLE other (id INTEGER);"),
    ];
    let conn = Connection::open_in_memory().unwrap();
    conn.execute_batch(ENSURE_LEDGER).unwrap();

    let ledger = read_ledger(&conn);
    assert!(matches!(
        Runner::new(list, &ledger),
        Err(ConfigError::DuplicateVersion(1))
    ));
    // No script executed: neither table exists and the ledger is empty.
    assert!(conn.prepare("SELECT id FROM notes").is_err());
    assert!(conn.prepare("SELECT id FROM other").is_err());
    assert!(read_ledger(&conn).is_empty());
}

#[test]
fn fixed_script_resumes_without_reapplying() {
    let broken = vec![
        mig(1, "create_notes", "CREATE TABLE notes (id INTEGER PRIMARY KEY);"),
        mig(2, "broken", "NOT VALID;"),
    ];
    let fixed = vec![
        mig(1, "create_notes", "CREATE TABLE notes (id INTEGER PRIMARY KEY);"),
        mig(2, "add_body", "ALTER TABLE notes ADD COLUMN body TEXT;"),
    ];
    let mut conn = Connection::open_in_memory().unwrap();

    let err = run_pass(&mut conn, broken).unwrap_err();
    assert_eq!(err.version, 2);
    assert_eq!(read_ledger(&conn), vec![1]);

    // The next pass picks up after version 1. Were version 1 reapplied, its
    // CREATE TABLE would fail; instead the pass completes.
    let applied = run_pass(&mut conn, fixed).unwrap();
    assert_eq!(applied, vec![1, 2]);
    conn.prepare("SELECT id, body FROM notes").unwrap();
}
