use maestro::migration::{migrations, MigrationDescriptor, MigrationKind};
use maestro::sequencer::{pending, Database, MigrationError};

fn descriptor(version: u64, sql: &'static str) -> MigrationDescriptor {
    MigrationDescriptor { version, description: "test", sql, kind: MigrationKind::Up }
}

#[test]
fn fresh_database_gets_exactly_domain_tables() {
    let mut db = Database::new();
    assert_eq!(db.apply_registry(&migrations()), Ok(()));
    assert_eq!(db.tables, vec!["users", "decks", "flashcards", "reviews", "api_usage"]);
    assert_eq!(db.watermark, 5);
    assert_eq!(db.applied, vec![1, 2, 3, 4, 5]);
    assert!(db.has_table("reviews"));
    assert!(!db.has_table("sessions"));
}

#[test]
fn applying_twice_changes_nothing() {
    let reg = migrations();
    let mut db = Database::new();
    assert_eq!(db.apply_registry(&reg), Ok(()));
    let tables = db.tables.clone();
    let applied = db.applied.clone();
    assert_eq!(db.apply_registry(&reg), Ok(()));
    assert_eq!(db.tables, tables);
    assert_eq!(db.applied, applied);
    assert_eq!(db.watermark, 5);
}

#[test]
fn incremental_application_converges() {
    let reg = migrations();
    let mut once = Database::new();
    assert_eq!(once.apply_registry(&reg), Ok(()));

    let mut stepwise = Database::new();
    let first_three: Vec<MigrationDescriptor> = reg[0..3].to_vec();
    assert_eq!(stepwise.apply_registry(&first_three), Ok(()));
    assert_eq!(stepwise.watermark, 3);
    assert_eq!(stepwise.tables, vec!["users", "decks", "flashcards"]);
    assert_eq!(stepwise.apply_registry(&reg), Ok(()));

    assert_eq!(stepwise.tables, once.tables);
    assert_eq!(stepwise.applied, once.applied);
    assert_eq!(stepwise.watermark, once.watermark);
}

#[test]
fn migrations_apply_in_version_order() {
    let mut db = Database::new();
    db.apply_registry(&migrations()).unwrap();
    assert!(db.applied.windows(2).all(|w| w[0] < w[1]));
}

#[test]
fn pending_selects_versions_above_watermark() {
    let reg = migrations();
    assert_eq!(pending(&reg, 0), vec![1, 2, 3, 4, 5]);
    assert_eq!(pending(&reg, 2), vec![3, 4, 5]);
    assert_eq!(pending(&reg, 5), Vec::<u64>::new());
    assert_eq!(pending(&reg, 9), Vec::<u64>::new());
}

#[test]
fn resumes_from_watermark() {
    let mut db = Database::new();
    db.watermark = 2;
    assert_eq!(db.apply_registry(&migrations()), Ok(()));
    assert_eq!(db.applied, vec![3, 4, 5]);
    assert_eq!(db.tables, vec!["flashcards", "reviews", "api_usage"]);
}

#[test]
fn malformed_statement_stops_the_run() {
    let reg = vec![
        descriptor(1, "CREATE TABLE IF NOT EXISTS a (id INTEGER);"),
        descriptor(2, "CREATE TABLE IF NOT EXISTS b (id INTEGER);"),
        descriptor(3, "CREATE TABEL c (id INTEGER);"),
        descriptor(4, "CREATE TABLE IF NOT EXISTS d (id INTEGER);"),
    ];
    let mut db = Database::new();
    assert_eq!(db.apply_registry(&reg), Err(MigrationError::MalformedStatement { version: 3 }));
    assert_eq!(db.watermark, 2);
    assert_eq!(db.applied, vec![1, 2]);
    assert_eq!(db.tables, vec!["a", "b"]);
}

#[test]
fn malformed_single_migration_leaves_database() {
    let mut db = Database::new();
    assert_eq!(db.apply(&descriptor(1, "DROP TABLE a;")), Err(MigrationError::MalformedStatement { version: 1 }));
    assert_eq!(db.watermark, 0);
    assert!(db.applied.is_empty());
    assert!(db.tables.is_empty());
}

#[test]
fn existing_table_is_not_created_twice() {
    let mut db = Database::new();
    db.apply(&descriptor(1, "CREATE TABLE IF NOT EXISTS a (id INTEGER);")).unwrap();
    db.apply(&descriptor(2, "CREATE TABLE IF NOT EXISTS a (id INTEGER, x TEXT);")).unwrap();
    assert_eq!(db.tables, vec!["a"]);
    assert_eq!(db.applied, vec![1, 2]);
    assert_eq!(db.watermark, 2);
}

#[test]
fn empty_registry_is_a_no_op() {
    let mut db = Database::new();
    assert_eq!(db.apply_registry(&vec![]), Ok(()));
    assert_eq!(db.watermark, 0);
    assert!(db.tables.is_empty());
}
