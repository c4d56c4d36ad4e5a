use vstd::prelude::*;
use crate::migration::{registry_ordered, registry_parses, registry_valid, MigrationDescriptor};
use crate::schema::created_table_spec;
use crate::sequencer::{empty_database, pending_versions, run, DatabaseModel};

verus! {

/// What one run does to the log: it keeps the old entries and appends versions of the
/// registry, each above the old watermark and at most the new one, in ascending order.
proof fn lemma_run_log(db: DatabaseModel, reg: Seq<MigrationDescriptor>)
    ensures
        ({
            let out = run(db, reg).0;
            &&& out.watermark >= db.watermark
            &&& out.applied.len() >= db.applied.len()
            &&& out.applied.subrange(0, db.applied.len() as int) == db.applied
            &&& forall|k: int|
                db.applied.len() <= k < out.applied.len() ==> db.watermark < #[trigger] out.applied[k]
                    <= out.watermark
            &&& forall|i: int, j: int|
                db.applied.len() <= i < j < out.applied.len() ==> #[trigger] out.applied[i]
                    < #[trigger] out.applied[j]
            &&& forall|k: int|
                db.applied.len() <= k < out.applied.len() ==> exists|n: int|
                    0 <= n < reg.len() && #[trigger] reg[n].version == #[trigger] out.applied[k]
        }),
    decreases reg.len(),
{
    let out = run(db, reg).0;
    if reg.len() == 0 {
        assert(out.applied.subrange(0, db.applied.len() as int) =~= db.applied);
    } else if reg[0].version <= db.watermark {
        let rest = reg.drop_first();
        lemma_run_log(db, rest);
        assert forall|k: int| db.applied.len() <= k < out.applied.len() implies exists|n: int|
            0 <= n < reg.len() && #[trigger] reg[n].version == #[trigger] out.applied[k] by {
            let n = choose|n: int| 0 <= n < rest.len() && #[trigger] rest[n].version == out.applied[k];
            assert(reg[n + 1] == rest[n]);
        }
    } else {
        match crate::sequencer::apply_spec(db, reg[0]) {
            Some(d) => {
                let rest = reg.drop_first();
                lemma_run_log(d, rest);
                let m = db.applied.len() as int;
                assert(d.applied.subrange(0, m) =~= db.applied);
                assert(out.applied.subrange(0, d.applied.len() as int) == d.applied);
                assert(out.applied[m] == d.applied[m]);
                assert(out.applied.subrange(0, m) =~= d.applied.subrange(0, m));
                assert forall|k: int| m <= k < out.applied.len() implies exists|n: int|
                    0 <= n < reg.len() && #[trigger] reg[n].version == #[trigger] out.applied[k] by {
                    if k == m {
                        assert(reg[0].version == out.applied[k]);
                    } else {
                        let n = choose|n: int|
                            0 <= n < rest.len() && #[trigger] rest[n].version == out.applied[k];
                        assert(reg[n + 1] == rest[n]);
                    }
                }
            },
            None => {
                assert(out.applied.subrange(0, db.applied.len() as int) =~= db.applied);
            },
        }
    }
}

/// Migrations are applied in ascending version order. A run keeps the earlier log and
/// appends only versions of the registry above the old watermark; of two versions it
/// applies, the lower one is applied first.
pub proof fn lemma_applied_in_version_order(db: DatabaseModel, reg: Seq<MigrationDescriptor>)
    ensures
        ({
            let out = run(db, reg).0;
            &&& out.applied.subrange(0, db.applied.len() as int) == db.applied
            &&& forall|k: int|
                db.applied.len() <= k < out.applied.len() ==> db.watermark < #[trigger] out.applied[k]
            &&& forall|k: int|
                db.applied.len() <= k < out.applied.len() ==> exists|n: int|
                    0 <= n < reg.len() && #[trigger] reg[n].version == #[trigger] out.applied[k]
            &&& forall|i: int, j: int|
                db.applied.len() <= i < out.applied.len() && db.applied.len() <= j
                    < out.applied.len() && #[trigger] out.applied[i] < #[trigger] out.applied[j]
                    ==> i < j
        }),
{
    lemma_run_log(db, reg);
    let out = run(db, reg).0;
    assert forall|i: int, j: int|
        db.applied.len() <= i < out.applied.len() && db.applied.len() <= j < out.applied.len()
            && #[trigger] out.applied[i] < #[trigger] out.applied[j] implies i < j by {
        if j < i {
            assert(out.applied[j] < out.applied[i]);
        }
    }
}

/// A registry whose statements all parse applies without error, and leaves the
/// watermark at or above each of its versions.
proof fn lemma_run_succeeds(db: DatabaseModel, reg: Seq<MigrationDescriptor>)
    requires
        registry_parses(reg),
    ensures
        run(db, reg).1 is None,
        run(db, reg).0.watermark >= db.watermark,
        forall|i: int| 0 <= i < reg.len() ==> #[trigger] reg[i].version <= run(db, reg).0.watermark,
    decreases reg.len(),
{
    if reg.len() > 0 {
        let rest = reg.drop_first();
        assert forall|i: int| 0 <= i < rest.len() implies (#[trigger] crate::schema::created_table_spec(
            rest[i].sql@,
        )) is Some by {
            assert(rest[i] == reg[i + 1]);
        }
        assert(crate::schema::created_table_spec(reg[0].sql@) is Some);
        if reg[0].version <= db.watermark {
            lemma_run_succeeds(db, rest);
        } else {
            let d = crate::sequencer::apply_spec(db, reg[0]).unwrap();
            lemma_run_succeeds(d, rest);
        }
        assert forall|i: int| 0 <= i < reg.len() implies #[trigger] reg[i].version <= run(db, reg).0.watermark by {
            if i > 0 {
                assert(reg[i] == rest[i - 1]);
            }
        }
    }
}

/// A registry none of whose versions is above the watermark leaves the database alone.
proof fn lemma_run_nothing_pending(db: DatabaseModel, reg: Seq<MigrationDescriptor>)
    requires
        forall|i: int| 0 <= i < reg.len() ==> #[trigger] reg[i].version <= db.watermark,
    ensures
        run(db, reg) == (db, None::<u64>),
    decreases reg.len(),
{
    if reg.len() > 0 {
        let rest = reg.drop_first();
        assert forall|i: int| 0 <= i < rest.len() implies #[trigger] rest[i].version <= db.watermark by {
            assert(rest[i] == reg[i + 1]);
        }
        lemma_run_nothing_pending(db, rest);
    }
}

/// Applying a registry whose statements all parse, then applying it again: neither
/// run fails, and the second one leaves the database exactly as the first left it.
pub proof fn lemma_apply_twice(db: DatabaseModel, reg: Seq<MigrationDescriptor>)
    requires
        registry_parses(reg),
    ensures
        run(db, reg).1 is None,
        run(run(db, reg).0, reg) == (run(db, reg).0, None::<u64>),
{
    lemma_run_succeeds(db, reg);
    lemma_run_nothing_pending(run(db, reg).0, reg);
}

/// A run over two parts in turn, when the first part raises no error.
proof fn lemma_run_split(db: DatabaseModel, a: Seq<MigrationDescriptor>, b: Seq<MigrationDescriptor>)
    requires
        run(db, a).1 is None,
    ensures
        run(db, a + b) == run(run(db, a).0, b),
    decreases a.len(),
{
    if a.len() == 0 {
        assert(a + b =~= b);
    } else {
        assert((a + b).drop_first() =~= a.drop_first() + b);
        assert((a + b)[0] == a[0]);
        if a[0].version <= db.watermark {
            lemma_run_split(db, a.drop_first(), b);
        } else {
            let d = crate::sequencer::apply_spec(db, a[0]).unwrap();
            lemma_run_split(d, a.drop_first(), b);
        }
    }
}

/// Applying the first `k` migrations of a registry whose statements all parse, and
/// later the whole registry, gives the same database as applying the whole registry
/// at once.
pub proof fn lemma_incremental_convergence(db: DatabaseModel, reg: Seq<MigrationDescriptor>, k: int)
    requires
        registry_parses(reg),
        0 <= k <= reg.len(),
    ensures
        run(run(db, reg.take(k)).0, reg) == run(db, reg),
{
    let first = reg.take(k);
    let rest = reg.skip(k);
    assert forall|i: int| 0 <= i < first.len() implies (#[trigger] crate::schema::created_table_spec(
        first[i].sql@,
    )) is Some by {
        assert(first[i] == reg[i]);
    }
    lemma_run_succeeds(db, first);
    let dk = run(db, first).0;
    assert(reg =~= first + rest);
    lemma_run_split(db, first, rest);
    lemma_run_nothing_pending(dk, first);
    lemma_run_split(dk, first, rest);
}

/// Once every version of `reg` is above both `w1` and `w2`, the two selections agree.
proof fn lemma_pending_all_above(reg: Seq<MigrationDescriptor>, w1: u64, w2: u64)
    requires
        forall|i: int| 0 <= i < reg.len() ==> #[trigger] reg[i].version > w1 && reg[i].version > w2,
    ensures
        pending_versions(reg, w1) == pending_versions(reg, w2),
    decreases reg.len(),
{
    if reg.len() > 0 {
        let rest = reg.drop_first();
        assert forall|i: int| 0 <= i < rest.len() implies #[trigger] rest[i].version > w1 && rest[i].version > w2 by {
            assert(rest[i] == reg[i + 1]);
        }
        lemma_pending_all_above(rest, w1, w2);
    }
}

/// With a valid registry, a run applies exactly the versions above the watermark, in
/// registry order, and nothing else: a migration is applied if and only if its
/// version exceeds the watermark.
pub proof fn lemma_applies_exactly_pending(db: DatabaseModel, reg: Seq<MigrationDescriptor>)
    requires
        registry_valid(reg),
    ensures
        run(db, reg).1 is None,
        run(db, reg).0.applied == db.applied + pending_versions(reg, db.watermark),
    decreases reg.len(),
{
    lemma_run_succeeds(db, reg);
    if reg.len() == 0 {
        assert(db.applied + Seq::<u64>::empty() =~= db.applied);
    } else {
        let rest = reg.drop_first();
        assert forall|i: int| 0 <= i < rest.len() implies (#[trigger] crate::schema::created_table_spec(
            rest[i].sql@,
        )) is Some by {
            assert(rest[i] == reg[i + 1]);
        }
        assert(registry_ordered(rest)) by {
            assert forall|i: int| 0 <= i < rest.len() implies #[trigger] rest[i].version > 0 by {
                assert(rest[i] == reg[i + 1]);
            }
            assert forall|i: int| 0 <= i < rest.len() implies #[trigger] rest[i].kind
                == crate::migration::MigrationKind::Up by {
                assert(rest[i] == reg[i + 1]);
            }
            assert forall|i: int, j: int| 0 <= i < j < rest.len() implies #[trigger] rest[i].version
                < #[trigger] rest[j].version by {
                assert(rest[i] == reg[i + 1]);
                assert(rest[j] == reg[j + 1]);
            }
        }
        if reg[0].version <= db.watermark {
            lemma_applies_exactly_pending(db, rest);
        } else {
            let d = crate::sequencer::apply_spec(db, reg[0]).unwrap();
            lemma_applies_exactly_pending(d, rest);
            assert forall|i: int| 0 <= i < rest.len() implies #[trigger] rest[i].version > d.watermark
                && rest[i].version > db.watermark by {
                assert(rest[i] == reg[i + 1]);
                assert(reg[0].version < reg[i + 1].version);
            }
            lemma_pending_all_above(rest, d.watermark, db.watermark);
            assert(d.applied + pending_versions(rest, d.watermark) =~= db.applied + pending_versions(
                reg,
                db.watermark,
            ));
        }
    }
}

/// The tables that the statements of `reg` create, in registry order.
pub open spec fn registry_tables(reg: Seq<MigrationDescriptor>) -> Seq<Seq<char>> {
    reg.map_values(|m: MigrationDescriptor| created_table_spec(m.sql@).unwrap())
}

/// No two statements of `reg` create the same table.
pub open spec fn tables_distinct(reg: Seq<MigrationDescriptor>) -> bool {
    forall|i: int, j: int|
        0 <= i < j < reg.len() ==> #[trigger] registry_tables(reg)[i] != #[trigger] registry_tables(
            reg,
        )[j]
}

proof fn lemma_tables_appended(db: DatabaseModel, reg: Seq<MigrationDescriptor>)
    requires
        registry_valid(reg),
        tables_distinct(reg),
        forall|i: int| 0 <= i < reg.len() ==> #[trigger] reg[i].version > db.watermark,
        forall|i: int| 0 <= i < reg.len() ==> !db.tables.contains(#[trigger] registry_tables(reg)[i]),
    ensures
        run(db, reg).0.tables == db.tables + registry_tables(reg),
    decreases reg.len(),
{
    if reg.len() == 0 {
        assert(registry_tables(reg) =~= Seq::<Seq<char>>::empty());
        assert(db.tables + Seq::<Seq<char>>::empty() =~= db.tables);
    } else {
        let rest = reg.drop_first();
        let d = crate::sequencer::apply_spec(db, reg[0]).unwrap();
        let t0 = registry_tables(reg)[0];
        assert(registry_tables(rest) =~= registry_tables(reg).drop_first());
        assert(d.tables == db.tables.push(t0));
        assert(registry_valid(rest)) by {
            assert forall|i: int| 0 <= i < rest.len() implies #[trigger] rest[i] == reg[i + 1] by {}
            assert forall|i: int| 0 <= i < rest.len() implies (#[trigger] created_table_spec(
                rest[i].sql@,
            )) is Some by {
                assert(rest[i] == reg[i + 1]);
            }
            assert forall|i: int| 0 <= i < rest.len() implies #[trigger] rest[i].version > 0 && rest[i].kind
                == crate::migration::MigrationKind::Up by {
                assert(rest[i] == reg[i + 1]);
            }
            assert forall|i: int, j: int| 0 <= i < j < rest.len() implies #[trigger] rest[i].version
                < #[trigger] rest[j].version by {
                assert(rest[i] == reg[i + 1]);
                assert(rest[j] == reg[j + 1]);
            }
        }
        assert forall|i: int, j: int| 0 <= i < j < rest.len() implies #[trigger] registry_tables(rest)[i]
            != #[trigger] registry_tables(rest)[j] by {
            assert(registry_tables(reg)[i + 1] != registry_tables(reg)[j + 1]);
        }
        assert forall|i: int| 0 <= i < rest.len() implies #[trigger] rest[i].version > d.watermark by {
            assert(rest[i] == reg[i + 1]);
            assert(reg[0].version < reg[i + 1].version);
        }
        assert forall|i: int| 0 <= i < rest.len() implies !d.tables.contains(
            #[trigger] registry_tables(rest)[i],
        ) by {
            let t = registry_tables(rest)[i];
            assert(t == registry_tables(reg)[i + 1]);
            assert(t != t0);
            if d.tables.contains(t) {
                let k = choose|k: int| 0 <= k < d.tables.len() && d.tables[k] == t;
                if k < db.tables.len() {
                    assert(db.tables[k] == t);
                }
            }
        }
        lemma_tables_appended(d, rest);
        assert(d.tables + registry_tables(rest) =~= db.tables + registry_tables(reg));
    }
}

/// A valid registry whose statements create distinct tables, applied to a new
/// database, leaves exactly those tables, in registry order.
pub proof fn lemma_fresh_database_tables(reg: Seq<MigrationDescriptor>)
    requires
        registry_valid(reg),
        tables_distinct(reg),
    ensures
        run(empty_database(), reg).0.tables == registry_tables(reg),
{
    lemma_tables_appended(empty_database(), reg);
    assert(empty_database().tables + registry_tables(reg) =~= registry_tables(reg));
}

} // verus!
