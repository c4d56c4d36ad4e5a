use vstd::prelude::*;
use crate::migration::MigrationDescriptor;
use crate::schema::{created_table, created_table_spec};
use vstd::string::StringExecFns;

verus! {

/// What a database file holds, as far as schema evolution is concerned.
pub struct DatabaseModel {
    /// The highest version applied so far (0 for a new file).
    pub watermark: u64,
    /// The tables that exist, in the order they were created.
    pub tables: Seq<Seq<char>>,
    /// Every version applied, in the order it was applied.
    pub applied: Seq<u64>,
}

/// A database file under migration: its version bookkeeping and its tables.
pub struct Database {
    pub watermark: u64,
    pub tables: Vec<String>,
    pub applied: Vec<u64>,
}

impl View for Database {
    type V = DatabaseModel;

    open spec fn view(&self) -> DatabaseModel {
        DatabaseModel {
            watermark: self.watermark,
            tables: self.tables@.map_values(|t: String| t@),
            applied: self.applied@,
        }
    }
}

/// Why a migration could not be applied.
#[derive(Clone, Copy, Debug, PartialEq, Eq, Structural)]
pub enum MigrationError {
    /// The statement of this version is not a create-if-absent statement.
    MalformedStatement { version: u64 },
}

/// A new, empty database file.
pub open spec fn empty_database() -> DatabaseModel {
    DatabaseModel { watermark: 0, tables: Seq::empty(), applied: Seq::empty() }
}

/// Creating `t` when it already exists leaves the tables as they are.
pub open spec fn add_table(tables: Seq<Seq<char>>, t: Seq<char>) -> Seq<Seq<char>> {
    if tables.contains(t) {
        tables
    } else {
        tables.push(t)
    }
}

/// Runs the statement of `m` and records its version; `None` when the statement is malformed.
pub open spec fn apply_spec(db: DatabaseModel, m: MigrationDescriptor) -> Option<DatabaseModel> {
    match created_table_spec(m.sql@) {
        Some(t) => Some(
            DatabaseModel {
                watermark: m.version,
                tables: add_table(db.tables, t),
                applied: db.applied.push(m.version),
            },
        ),
        None => None,
    }
}

/// Applies, in registry order, each migration whose version is above the watermark
/// at its turn, and stops at the first failure. Gives the database reached and the
/// version that failed, if any.
pub open spec fn run(db: DatabaseModel, reg: Seq<MigrationDescriptor>) -> (DatabaseModel, Option<u64>)
    decreases reg.len(),
{
    if reg.len() == 0 {
        (db, None)
    } else if reg[0].version <= db.watermark {
        run(db, reg.drop_first())
    } else {
        match apply_spec(db, reg[0]) {
            Some(d) => run(d, reg.drop_first()),
            None => (db, Some(reg[0].version)),
        }
    }
}

/// The versions of `reg` above the watermark `w`, in registry order.
pub open spec fn pending_versions(reg: Seq<MigrationDescriptor>, w: u64) -> Seq<u64>
    decreases reg.len(),
{
    if reg.len() == 0 {
        Seq::empty()
    } else if reg[0].version > w {
        seq![reg[0].version] + pending_versions(reg.drop_first(), w)
    } else {
        pending_versions(reg.drop_first(), w)
    }
}

/// The versions that a database at watermark `watermark` still has to apply.
pub fn pending(reg: &Vec<MigrationDescriptor>, watermark: u64) -> (r: Vec<u64>)
    ensures
        r@ == pending_versions(reg@, watermark),
{
    let mut r: Vec<u64> = Vec::new();
    let mut i: usize = 0;
    proof {
        assert(reg@.skip(0) =~= reg@);
    }
    while i < reg.len()
        invariant
            i <= reg@.len(),
            r@ + pending_versions(reg@.skip(i as int), watermark) == pending_versions(reg@, watermark),
        decreases reg@.len() - i,
    {
        proof {
            assert(reg@.skip(i as int)[0] == reg@[i as int]);
            assert(reg@.skip(i as int).drop_first() =~= reg@.skip(i + 1));
        }
        let v = reg[i].version;
        if v > watermark {
            proof {
                assert(r@.push(v) + pending_versions(reg@.skip(i + 1), watermark) =~= r@ + (seq![v]
                    + pending_versions(reg@.skip(i + 1), watermark)));
            }
            r.push(v);
        }
        i = i + 1;
    }
    proof {
        assert(reg@.skip(i as int) =~= Seq::<MigrationDescriptor>::empty());
        assert(r@ + Seq::<u64>::empty() =~= r@);
    }
    r
}

impl Database {
    /// A new database file: no tables, nothing applied.
    pub fn new() -> (r: Database)
        ensures
            r@ == empty_database(),
    {
        let r = Database { watermark: 0, tables: Vec::new(), applied: Vec::new() };
        proof {
            assert(r@.tables =~= Seq::<Seq<char>>::empty());
        }
        r
    }

    /// Whether a table of that name exists.
    pub fn has_table(&self, name: &str) -> (r: bool)
        ensures
            r == self@.tables.contains(name@),
    {
        let wanted = String::from_str(name);
        let mut i: usize = 0;
        while i < self.tables.len()
            invariant
                i <= self.tables.len(),
                wanted@ == name@,
                forall|k: int| 0 <= k < i ==> self.tables@[k]@ != name@,
            decreases self.tables.len() - i,
        {
            if self.tables[i] == wanted {
                proof {
                    assert(self@.tables[i as int] == name@);
                }
                return true;
            }
            i = i + 1;
        }
        proof {
            if self@.tables.contains(name@) {
                let k = choose|k: int| 0 <= k < self@.tables.len() && self@.tables[k] == name@;
                assert(self.tables@[k]@ == name@);
            }
        }
        false
    }

    /// Applies one migration: creates its table unless it exists, then advances the
    /// watermark to its version. A malformed statement changes nothing.
    pub fn apply(&mut self, m: &MigrationDescriptor) -> (r: Result<(), MigrationError>)
        ensures
            match apply_spec(old(self)@, *m) {
                Some(d) => r is Ok && final(self)@ == d,
                None => r == Err::<(), MigrationError>(
                    MigrationError::MalformedStatement { version: m.version },
                ) && final(self)@ == old(self)@,
            },
    {
        match created_table(m.sql) {
            None => Err(MigrationError::MalformedStatement { version: m.version }),
            Some(t) => {
                let ghost t_view = t@;
                if !self.has_table(t.as_str()) {
                    self.tables.push(t);
                }
                self.watermark = m.version;
                self.applied.push(m.version);
                proof {
                    assert(self@.tables =~= add_table(old(self)@.tables, t_view));
                    assert(self@.applied =~= old(self)@.applied.push(m.version));
                }
                Ok(())
            },
        }
    }

    /// Brings the database up to the registry: applies, oldest first, every migration
    /// above the watermark, and stops at the first that fails, keeping what was applied
    /// before it.
    pub fn apply_registry(&mut self, reg: &Vec<MigrationDescriptor>) -> (r: Result<(), MigrationError>)
        ensures
            final(self)@ == run(old(self)@, reg@).0,
            match run(old(self)@, reg@).1 {
                None => r is Ok,
                Some(v) => r == Err::<(), MigrationError>(MigrationError::MalformedStatement { version: v }),
            },
    {
        let mut i: usize = 0;
        proof {
            assert(reg@.skip(0) =~= reg@);
        }
        while i < reg.len()
            invariant
                i <= reg@.len(),
                run(old(self)@, reg@) == run(self@, reg@.skip(i as int)),
            decreases reg@.len() - i,
        {
            let m = &reg[i];
            proof {
                assert(reg@.skip(i as int)[0] == reg@[i as int]);
                assert(reg@.skip(i as int).drop_first() =~= reg@.skip(i + 1));
            }
            if m.version > self.watermark {
                match self.apply(m) {
                    Ok(()) => {},
                    Err(e) => {
                        return Err(e);
                    },
                }
            }
            i = i + 1;
        }
        proof {
            assert(reg@.skip(i as int) =~= Seq::<MigrationDescriptor>::empty());
        }
        Ok(())
    }
}

} // verus!
