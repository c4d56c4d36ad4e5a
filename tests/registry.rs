use maestro::greeting::greet;
use maestro::migration::{database_url, migrations, validate_registry, MigrationDescriptor, MigrationKind};
use maestro::schema::created_table;

#[test]
fn greet_formats_name() {
    assert_eq!(greet("World"), "Hello, World! You've been greeted from Rust!");
    assert_eq!(greet(""), "Hello, ! You've been greeted from Rust!");
}

#[test]
fn registry_has_five_forward_migrations() {
    let reg = migrations();
    assert_eq!(reg.len(), 5);
    let versions: Vec<u64> = reg.iter().map(|m| m.version).collect();
    assert_eq!(versions, vec![1, 2, 3, 4, 5]);
    let descriptions: Vec<&str> = reg.iter().map(|m| m.description).collect();
    assert_eq!(
        descriptions,
        vec![
            "create_users_table",
            "create_decks_table",
            "create_flashcards_table",
            "create_reviews_table",
            "create_api_usage_table"
        ]
    );
    assert!(reg.iter().all(|m| m.kind == MigrationKind::Up));
    assert!(validate_registry(&reg));
}

#[test]
fn registry_statements_name_their_tables() {
    let names: Vec<String> = migrations().iter().map(|m| created_table(m.sql).unwrap()).collect();
    assert_eq!(names, vec!["users", "decks", "flashcards", "reviews", "api_usage"]);
}

#[test]
fn registry_statements_hold_constraints() {
    let reg = migrations();
    assert!(reg[0].sql.contains("google_id TEXT UNIQUE"));
    assert!(reg[0].sql.contains("subscription_plan TEXT DEFAULT 'free'"));
    assert!(reg[1].sql.contains("FOREIGN KEY (user_id) REFERENCES users (id)"));
    assert!(reg[2].sql.contains("FOREIGN KEY (deck_id) REFERENCES decks (id)"));
    assert!(reg[3].sql.contains("FOREIGN KEY (flashcard_id) REFERENCES flashcards (id)"));
    assert!(reg[4].sql.contains("UNIQUE(user_id, date)"));
    assert!(reg[4].sql.contains("FOREIGN KEY (user_id) REFERENCES users (id)"));
}

#[test]
fn database_url_names_local_file() {
    assert_eq!(database_url(), "sqlite:maestro.db");
}

#[test]
fn created_table_reads_name() {
    assert_eq!(created_table("CREATE TABLE IF NOT EXISTS notes (id INTEGER);"), Some("notes".to_string()));
    assert_eq!(created_table("CREATE TABLE IF NOT EXISTS tag_2"), Some("tag_2".to_string()));
}

#[test]
fn created_table_rejects_other_statements() {
    assert_eq!(created_table(""), None);
    assert_eq!(created_table("CREATE TABLE IF NOT EXISTS "), None);
    assert_eq!(created_table("CREATE TABLE IF NOT EXISTS (id INTEGER);"), None);
    assert_eq!(created_table("CREATE TABLE notes (id INTEGER);"), None);
    assert_eq!(created_table("create table if not exists notes (id INTEGER);"), None);
    assert_eq!(created_table("DROP TABLE notes;"), None);
}

fn descriptor(version: u64, sql: &'static str, kind: MigrationKind) -> MigrationDescriptor {
    MigrationDescriptor { version, description: "test", sql, kind }
}

#[test]
fn validate_rejects_bad_registries() {
    let ok = "CREATE TABLE IF NOT EXISTS a (id INTEGER);";
    assert!(validate_registry(&vec![]));
    assert!(validate_registry(&vec![descriptor(1, ok, MigrationKind::Up), descriptor(7, ok, MigrationKind::Up)]));
    assert!(!validate_registry(&vec![descriptor(1, ok, MigrationKind::Up), descriptor(1, ok, MigrationKind::Up)]));
    assert!(!validate_registry(&vec![descriptor(2, ok, MigrationKind::Up), descriptor(1, ok, MigrationKind::Up)]));
    assert!(!validate_registry(&vec![descriptor(0, ok, MigrationKind::Up)]));
    assert!(!validate_registry(&vec![descriptor(1, ok, MigrationKind::Down)]));
    assert!(!validate_registry(&vec![descriptor(1, "SELECT 1;", MigrationKind::Up)]));
}
