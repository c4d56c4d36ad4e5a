use vstd::prelude::*;
use crate::schema::{create_prefix, created_table_spec, is_ident_char, lemma_ident_end};

verus! {

/// Direction of a schema change. The registry only moves forward.
#[derive(Clone, Copy, Debug, PartialEq, Eq, Structural)]
pub enum MigrationKind {
    Up,
    Down,
}

/// One versioned schema change.
#[derive(Clone, Copy, Debug)]
pub struct MigrationDescriptor {
    pub version: u64,
    pub description: &'static str,
    pub sql: &'static str,
    pub kind: MigrationKind,
}

/// Versions are positive and strictly increasing, and every change is forward.
pub open spec fn registry_ordered(reg: Seq<MigrationDescriptor>) -> bool {
    &&& forall|i: int| 0 <= i < reg.len() ==> #[trigger] reg[i].version > 0
    &&& forall|i: int| 0 <= i < reg.len() ==> #[trigger] reg[i].kind == MigrationKind::Up
    &&& forall|i: int, j: int| 0 <= i < j < reg.len() ==> #[trigger] reg[i].version < #[trigger] reg[j].version
}

/// Every statement is a create-if-absent statement whose table name can be read.
pub open spec fn registry_parses(reg: Seq<MigrationDescriptor>) -> bool {
    forall|i: int| 0 <= i < reg.len() ==> (#[trigger] created_table_spec(reg[i].sql@)) is Some
}

/// A registry that the sequencer can apply without error.
pub open spec fn registry_valid(reg: Seq<MigrationDescriptor>) -> bool {
    registry_ordered(reg) && registry_parses(reg)
}

/// The tables of the flashcard database, in the order the registry creates them.
pub open spec fn domain_tables() -> Seq<Seq<char>> {
    seq!["users"@, "decks"@, "flashcards"@, "reviews"@, "api_usage"@]
}

/// Whether `reg` may be handed to the sequencer: positive, strictly increasing
/// versions, forward changes only, and statements whose table name can be read.
pub fn validate_registry(reg: &Vec<MigrationDescriptor>) -> (r: bool)
    ensures
        r == registry_valid(reg@),
{
    let mut i: usize = 0;
    while i < reg.len()
        invariant
            i <= reg@.len(),
            registry_valid(reg@.take(i as int)),
        decreases reg@.len() - i,
    {
        let m = &reg[i];
        let parsed = crate::schema::created_table(m.sql);
        let ok = m.version > 0 && m.kind == MigrationKind::Up && parsed.is_some() && (i == 0
            || reg[i - 1].version < m.version);
        if !ok {
            proof {
                if i > 0 && reg@[i - 1].version >= m.version {
                    assert(!(reg@[i - 1].version < reg@[i as int].version));
                }
            }
            return false;
        }
        proof {
            let t = reg@.take(i as int);
            let t1 = reg@.take(i + 1);
            assert forall|a: int| 0 <= a < t1.len() implies #[trigger] t1[a].version > 0 && t1[a].kind
                == MigrationKind::Up && created_table_spec(t1[a].sql@) is Some by {
                if a < i {
                    assert(t1[a] == t[a]);
                }
            }
            assert forall|a: int, b: int| 0 <= a < b < t1.len() implies #[trigger] t1[a].version
                < #[trigger] t1[b].version by {
                if b < i {
                    assert(t1[a] == t[a] && t1[b] == t[b]);
                } else {
                    if a < i - 1 {
                        assert(t[a].version < t[i - 1].version);
                    }
                }
            }
        }
        i = i + 1;
    }
    proof {
        assert(reg@.take(i as int) =~= reg@);
    }
    true
}

/// The name of the database that the registry is applied to.
pub fn database_url() -> (r: &'static str)
    ensures
        r@ == "sqlite:maestro.db"@,
{
    "sqlite:maestro.db"
}

/// A statement that opens with the create-if-absent words followed by `name`
/// and a space creates the table `name`.
proof fn lemma_creates(sql: Seq<char>, name: Seq<char>)
    requires
        sql.len() > create_prefix().len() + name.len(),
        sql.subrange(0, (create_prefix().len() + name.len() + 1) as int) == create_prefix() + name + seq![' '],
        name.len() > 0,
        forall|k: int| 0 <= k < name.len() ==> is_ident_char(#[trigger] name[k]),
    ensures
        created_table_spec(sql) == Some(name),
{
    let p = create_prefix().len() as int;
    let head = sql.subrange(0, p + name.len() + 1);
    assert(sql.subrange(0, p) =~= head.subrange(0, p));
    assert(head.subrange(0, p) =~= create_prefix());
    assert forall|k: int| p <= k < p + name.len() implies is_ident_char(#[trigger] sql[k]) by {
        assert(sql[k] == head[k]);
        assert(head[k] == name[k - p]);
    }
    assert(sql[p + name.len()] == head[p + name.len()]);
    lemma_ident_end(sql, p, p + name.len());
    assert forall|k: int| 0 <= k < name.len() implies #[trigger] sql.subrange(p, p + name.len())[k] == name[k] by {
        assert(sql[p + k] == head[p + k]);
    }
    assert(sql.subrange(p, p + name.len()) =~= name);
}

/// The schema changes of the flashcard database, oldest first.
pub fn migrations() -> (r: Vec<MigrationDescriptor>)
    ensures
        registry_valid(r@),
        r@.len() == domain_tables().len(),
        forall|i: int| 0 <= i < r@.len() ==> #[trigger] r@[i].version == i + 1,
        forall|i: int|
            0 <= i < r@.len() ==> #[trigger] created_table_spec(r@[i].sql@) == Some(
                domain_tables()[i],
            ),
{
    let m1 = MigrationDescriptor {
        version: 1,
        description: "create_users_table",
        sql: "CREATE TABLE IF NOT EXISTS users (
                id INTEGER PRIMARY KEY AUTOINCREMENT,
                google_id TEXT UNIQUE,
                email TEXT NOT NULL,
                name TEXT NOT NULL,
                avatar_url TEXT,
                subscription_plan TEXT DEFAULT 'free',
                created_at DATETIME DEFAULT CURRENT_TIMESTAMP,
                updated_at DATETIME DEFAULT CURRENT_TIMESTAMP
            );",
        kind: MigrationKind::Up,
    };
    let m2 = MigrationDescriptor {
        version: 2,
        description: "create_decks_table",
        sql: "CREATE TABLE IF NOT EXISTS decks (
                id INTEGER PRIMARY KEY AUTOINCREMENT,
                user_id INTEGER NOT NULL,
                name TEXT NOT NULL,
                description TEXT,
                created_at DATETIME DEFAULT CURRENT_TIMESTAMP,
                updated_at DATETIME DEFAULT CURRENT_TIMESTAMP,
                FOREIGN KEY (user_id) REFERENCES users (id)
            );",
        kind: MigrationKind::Up,
    };
    let m3 = MigrationDescriptor {
        version: 3,
        description: "create_flashcards_table",
        sql: "CREATE TABLE IF NOT EXISTS flashcards (
                id INTEGER PRIMARY KEY AUTOINCREMENT,
                deck_id INTEGER NOT NULL,
                front TEXT NOT NULL,
                back TEXT NOT NULL,
                difficulty TEXT DEFAULT 'new',
                ease_factor REAL DEFAULT 2.5,
                interval INTEGER DEFAULT 1,
                repetitions INTEGER DEFAULT 0,
                next_review DATETIME,
                ai_generated BOOLEAN DEFAULT FALSE,
                ai_source_url TEXT,
                created_at DATETIME DEFAULT CURRENT_TIMESTAMP,
                updated_at DATETIME DEFAULT CURRENT_TIMESTAMP,
                FOREIGN KEY (deck_id) REFERENCES decks (id)
            );",
        kind: MigrationKind::Up,
    };
    let m4 = MigrationDescriptor {
        version: 4,
        description: "create_reviews_table",
        sql: "CREATE TABLE IF NOT EXISTS reviews (
                id INTEGER PRIMARY KEY AUTOINCREMENT,
                flashcard_id INTEGER NOT NULL,
                quality INTEGER NOT NULL,
                previous_interval INTEGER,
                new_interval INTEGER,
                previous_ease_factor REAL,
                new_ease_factor REAL,
                reviewed_at DATETIME DEFAULT CURRENT_TIMESTAMP,
                FOREIGN KEY (flashcard_id) REFERENCES flashcards (id)
            );",
        kind: MigrationKind::Up,
    };
    let m5 = MigrationDescriptor {
        version: 5,
        description: "create_api_usage_table",
        sql: "CREATE TABLE IF NOT EXISTS api_usage (
                id INTEGER PRIMARY KEY AUTOINCREMENT,
                user_id INTEGER NOT NULL,
                date DATE NOT NULL,
                api_calls INTEGER DEFAULT 0,
                created_at DATETIME DEFAULT CURRENT_TIMESTAMP,
                FOREIGN KEY (user_id) REFERENCES users (id),
                UNIQUE(user_id, date)
            );",
        kind: MigrationKind::Up,
    };
    // Each statement is revealed by its own text, so the copies below must match the
    // statements above character for character.
    proof {
        reveal_strlit("CREATE TABLE IF NOT EXISTS ");
        reveal_strlit("CREATE TABLE IF NOT EXISTS users (
                id INTEGER PRIMARY KEY AUTOINCREMENT,
                google_id TEXT UNIQUE,
                email TEXT NOT NULL,
                name TEXT NOT NULL,
                avatar_url TEXT,
                subscription_plan TEXT DEFAULT 'free',
                created_at DATETIME DEFAULT CURRENT_TIMESTAMP,
                updated_at DATETIME DEFAULT CURRENT_TIMESTAMP
            );");
        reveal_strlit("users");
        assert(m1.sql@.subrange(0, 33) =~= create_prefix() + "users"@ + seq![' ']);
        lemma_creates(m1.sql@, "users"@);
        reveal_strlit("CREATE TABLE IF NOT EXISTS decks (
                id INTEGER PRIMARY KEY AUTOINCREMENT,
                user_id INTEGER NOT NULL,
                name TEXT NOT NULL,
                description TEXT,
                created_at DATETIME DEFAULT CURRENT_TIMESTAMP,
                updated_at DATETIME DEFAULT CURRENT_TIMESTAMP,
                FOREIGN KEY (user_id) REFERENCES users (id)
            );");
        reveal_strlit("decks");
        assert(m2.sql@.subrange(0, 33) =~= create_prefix() + "decks"@ + seq![' ']);
        lemma_creates(m2.sql@, "decks"@);
        reveal_strlit("CREATE TABLE IF NOT EXISTS flashcards (
                id INTEGER PRIMARY KEY AUTOINCREMENT,
                deck_id INTEGER NOT NULL,
                front TEXT NOT NULL,
                back TEXT NOT NULL,
                difficulty TEXT DEFAULT 'new',
                ease_factor REAL DEFAULT 2.5,
                interval INTEGER DEFAULT 1,
                repetitions INTEGER DEFAULT 0,
                next_review DATETIME,
                ai_generated BOOLEAN DEFAULT FALSE,
                ai_source_url TEXT,
                created_at DATETIME DEFAULT CURRENT_TIMESTAMP,
                updated_at DATETIME DEFAULT CURRENT_TIMESTAMP,
                FOREIGN KEY (deck_id) REFERENCES decks (id)
            );");
        reveal_strlit("flashcards");
        assert(m3.sql@.subrange(0, 38) =~= create_prefix() + "flashcards"@ + seq![' ']);
        lemma_creates(m3.sql@, "flashcards"@);
        reveal_strlit("CREATE TABLE IF NOT EXISTS reviews (
                id INTEGER PRIMARY KEY AUTOINCREMENT,
                flashcard_id INTEGER NOT NULL,
                quality INTEGER NOT NULL,
                previous_interval INTEGER,
                new_interval INTEGER,
                previous_ease_factor REAL,
                new_ease_factor REAL,
                reviewed_at DATETIME DEFAULT CURRENT_TIMESTAMP,
                FOREIGN KEY (flashcard_id) REFERENCES flashcards (id)
            );");
        reveal_strlit("reviews");
        assert(m4.sql@.subrange(0, 35) =~= create_prefix() + "reviews"@ + seq![' ']);
        lemma_creates(m4.sql@, "reviews"@);
        reveal_strlit("CREATE TABLE IF NOT EXISTS api_usage (
                id INTEGER PRIMARY KEY AUTOINCREMENT,
                user_id INTEGER NOT NULL,
                date DATE NOT NULL,
                api_calls INTEGER DEFAULT 0,
                created_at DATETIME DEFAULT CURRENT_TIMESTAMP,
                FOREIGN KEY (user_id) REFERENCES users (id),
                UNIQUE(user_id, date)
            );");
        reveal_strlit("api_usage");
        assert(m5.sql@.subrange(0, 37) =~= create_prefix() + "api_usage"@ + seq![' ']);
        lemma_creates(m5.sql@, "api_usage"@);
    }
    let r = vec![m1, m2, m3, m4, m5];
    proof {
        assert(domain_tables().len() == 5);
    }
    r
}

} // verus!
