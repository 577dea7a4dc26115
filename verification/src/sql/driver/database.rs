//! What a migration does to a table, on a model of the database.
//!
//! The migration procedure rests on what the database does with each
//! statement, and on its failures being passed over. The model here says
//! what is assumed of the database, as far as the names of a table's
//! columns go: which statements change them, and when a statement fails and
//! changes nothing. On that model a migration converges: running it a
//! second time changes nothing.

use vstd::prelude::*;
use crate::sql::driver::migration::add_sql;
use crate::sql::driver::migration::alter_statements;
use crate::sql::driver::migration::column_statements;
use crate::sql::driver::migration::create_sql;
use crate::sql::driver::migration::declares;
use crate::sql::driver::migration::drop_sql;
use crate::sql::driver::migration::drop_statements;
use crate::sql::driver::migration::modify_sql;
use crate::sql::driver::migration::plan;
use crate::sql::driver::migration::previous;
use crate::sql::driver::migration::qualified;
use crate::sql::driver::migration::reconciles;
use crate::sql::driver::migration::reconciliation;
use crate::sql::driver::migration::rename_sql;
use crate::sql::driver::migration::tolerant;
use crate::sql::driver::migration::StatementView;
use crate::sql::driver::model::ColumnView;
use crate::sql::driver::model::DDLOpView;
use crate::sql::driver::model::TableDDLOp;
use crate::sql::driver::model::TableView;

verus! {

/// A table in the database: the names of its columns, in order, where it
/// exists, and those it had when it was dropped, where it can be brought
/// back.
pub struct Table {
    pub live: Option<Seq<Seq<char>>>,
    pub dropped: Option<Seq<Seq<char>>>,
}

/// A statement of a migration, by what it asks of the database.
pub enum Op {
    /// `DROP TABLE IF EXISTS`, with `ALL` where `purge` is set.
    DropTable { purge: bool },
    /// `UNDROP TABLE`.
    Undrop,
    /// `ALTER TABLE IF EXISTS .. RENAME COLUMN`.
    Rename { old: Seq<char>, column: ColumnView },
    /// `ALTER TABLE IF EXISTS .. ADD COLUMN`, first or after a column.
    Add { column: ColumnView, after: Option<Seq<char>> },
    /// `ALTER TABLE IF EXISTS .. MODIFY COLUMN`.
    Modify { column: ColumnView },
    /// `ALTER TABLE .. DROP COLUMN`.
    DropColumn { name: Seq<char> },
    /// `CREATE TABLE IF NOT EXISTS`.
    Create { columns: Seq<ColumnView> },
}

/// The names of declared columns.
pub open spec fn names(columns: Seq<ColumnView>) -> Seq<Seq<char>> {
    Seq::new(columns.len(), |i: int| columns[i].name)
}

/// The statement that asks `op` of the table `t`.
pub open spec fn statement_of(t: Seq<char>, op: Op) -> StatementView {
    match op {
        Op::DropTable { purge } => tolerant(
            if purge {
                "DROP TABLE IF EXISTS "@ + t + " ALL;"@
            } else {
                "DROP TABLE IF EXISTS "@ + t + ";"@
            },
        ),
        Op::Undrop => tolerant("UNDROP TABLE "@ + t + ";"@),
        Op::Rename { old, column } => tolerant(rename_sql(t, old, column.name)),
        Op::Add { column, after } => tolerant(add_sql(t, column, after)),
        Op::Modify { column } => tolerant(modify_sql(t, column)),
        Op::DropColumn { name } => tolerant(drop_sql(t, name)),
        Op::Create { columns } => StatementView { sql: create_sql(t, columns), fatal: true },
    }
}

/// The statements that ask `ops` of the table `t`.
pub open spec fn statements_of(t: Seq<char>, ops: Seq<Op>) -> Seq<StatementView> {
    Seq::new(ops.len(), |i: int| statement_of(t, ops[i]))
}

/// What the statements for the column at position `i` ask.
pub open spec fn column_ops(cols: Seq<ColumnView>, i: int) -> Seq<Op> {
    (match cols[i].op {
        DDLOpView::Rename(old) => seq![Op::Rename { old, column: cols[i] }],
        DDLOpView::Keep => Seq::empty(),
    }) + seq![
        Op::Add { column: cols[i], after: previous(cols, i) },
        Op::Modify { column: cols[i] },
    ]
}

/// What the statements for the first `n` columns ask.
pub open spec fn alter_ops(cols: Seq<ColumnView>, n: nat) -> Seq<Op>
    decreases n,
{
    if n == 0 || n > cols.len() {
        Seq::empty()
    } else {
        alter_ops(cols, (n - 1) as nat) + column_ops(cols, n - 1)
    }
}

/// What the first part of a table's migration asks.
pub open spec fn ops_before(ddl: TableView) -> Seq<Op> {
    match ddl.op {
        TableDDLOp::Drop => seq![Op::DropTable { purge: false }],
        TableDDLOp::DropAll => seq![Op::DropTable { purge: true }],
        TableDDLOp::Undrop => seq![Op::Undrop] + alter_ops(ddl.cols, ddl.cols.len()),
        TableDDLOp::CreateOrAlter => alter_ops(ddl.cols, ddl.cols.len()),
    }
}

/// What dropping the undeclared among the first `n` existing columns asks.
pub open spec fn drop_ops(cols: Seq<ColumnView>, existing: Seq<Seq<char>>, n: nat) -> Seq<Op>
    decreases n,
{
    if n == 0 || n > existing.len() {
        Seq::empty()
    } else if declares(cols, existing[n - 1]) {
        drop_ops(cols, existing, (n - 1) as nat)
    } else {
        drop_ops(cols, existing, (n - 1) as nat).push(Op::DropColumn { name: existing[n - 1] })
    }
}

/// What the second part of a table's migration asks, given the columns
/// that the database reported.
pub open spec fn ops_after(ddl: TableView, existing: Seq<Seq<char>>) -> Seq<Op> {
    drop_ops(ddl.cols, existing, existing.len()).push(Op::Create { columns: ddl.cols })
}

/// The statements for the first `n` columns are those that `alter_ops`
/// asks.
pub proof fn lemma_alter_statements(t: Seq<char>, cols: Seq<ColumnView>, n: nat)
    requires
        n <= cols.len(),
    ensures
        alter_statements(t, cols, n) == statements_of(t, alter_ops(cols, n)),
    decreases n,
{
    if n > 0 {
        lemma_alter_statements(t, cols, (n - 1) as nat);
        assert(column_statements(t, cols, n - 1) =~= statements_of(t, column_ops(cols, n - 1)));
        assert(statements_of(t, alter_ops(cols, n)) =~= statements_of(
            t,
            alter_ops(cols, (n - 1) as nat),
        ) + statements_of(t, column_ops(cols, n - 1)));
    } else {
        assert(alter_statements(t, cols, n) =~= statements_of(t, alter_ops(cols, n)));
    }
}

/// The statements that drop undeclared columns are those that `drop_ops`
/// asks.
pub proof fn lemma_drop_statements(
    t: Seq<char>,
    cols: Seq<ColumnView>,
    existing: Seq<Seq<char>>,
    n: nat,
)
    requires
        n <= existing.len(),
    ensures
        drop_statements(t, cols, existing, n) == statements_of(t, drop_ops(cols, existing, n)),
    decreases n,
{
    if n > 0 {
        lemma_drop_statements(t, cols, existing, (n - 1) as nat);
    }
    assert(drop_statements(t, cols, existing, n) =~= statements_of(
        t,
        drop_ops(cols, existing, n),
    ));
}

/// The statements that a migration is planned to run are those that
/// `ops_before` and `ops_after` ask: the model speaks of the migration as
/// it is planned.
pub proof fn lemma_plan_asks(ddl: TableView, org: Seq<char>, existing: Seq<Seq<char>>)
    ensures
        plan(ddl, org).statements == statements_of(qualified(org, ddl.name), ops_before(ddl)),
        plan(ddl, org).describe is Some == reconciles(ddl.op),
        reconciliation(ddl, org, existing) == statements_of(
            qualified(org, ddl.name),
            ops_after(ddl, existing),
        ),
{
    let t = qualified(org, ddl.name);
    lemma_alter_statements(t, ddl.cols, ddl.cols.len());
    lemma_drop_statements(t, ddl.cols, existing, existing.len());
    assert(plan(ddl, org).statements =~= statements_of(t, ops_before(ddl)));
    assert(reconciliation(ddl, org, existing) =~= statements_of(t, ops_after(ddl, existing)));
}

/// A position at which `cols` holds `name`.
pub open spec fn position_of(cols: Seq<Seq<char>>, name: Seq<char>) -> int {
    choose|k: int| 0 <= k < cols.len() && cols[k] == name
}

/// `cols` with `name` put in after position `k`.
pub open spec fn put_after(cols: Seq<Seq<char>>, k: int, name: Seq<char>) -> Seq<Seq<char>> {
    cols.subrange(0, k + 1).push(name) + cols.subrange(k + 1, cols.len() as int)
}

/// `cols` without the columns named `name`.
pub open spec fn without(cols: Seq<Seq<char>>, name: Seq<char>) -> Seq<Seq<char>>
    decreases cols.len(),
{
    if cols.len() == 0 {
        cols
    } else if cols.last() == name {
        without(cols.drop_last(), name)
    } else {
        without(cols.drop_last(), name).push(cols.last())
    }
}

/// What the database makes of a table when it is asked `op`. A statement
/// that fails changes nothing.
///
/// - Dropping a table that exists keeps its columns for bringing it back,
///   unless its history is purged. Bringing back takes a table that was
///   dropped and does not exist.
/// - A column is renamed where the table has the old name and not the new
///   one; it is added where the table lacks it and, unless it goes first,
///   has the column it goes after; modifying leaves the names.
/// - A table is created where it does not exist and no two of its columns
///   have the same name.
pub open spec fn apply(s: Table, op: Op) -> Table {
    match op {
        Op::DropTable { purge } => match s.live {
            Some(cols) => Table {
                live: None,
                dropped: if purge {
                    None
                } else {
                    Some(cols)
                },
            },
            None => s,
        },
        Op::Undrop => match (s.live, s.dropped) {
            (None, Some(cols)) => Table { live: Some(cols), dropped: None },
            _ => s,
        },
        Op::Rename { old, column } => match s.live {
            Some(cols) => if cols.contains(old) && !cols.contains(column.name) {
                Table {
                    live: Some(cols.update(position_of(cols, old), column.name)),
                    dropped: s.dropped,
                }
            } else {
                s
            },
            None => s,
        },
        Op::Add { column, after } => match s.live {
            Some(cols) => if cols.contains(column.name) {
                s
            } else {
                match after {
                    None => Table {
                        live: Some(put_after(cols, -1, column.name)),
                        dropped: s.dropped,
                    },
                    Some(before) => if cols.contains(before) {
                        Table {
                            live: Some(put_after(cols, position_of(cols, before), column.name)),
                            dropped: s.dropped,
                        }
                    } else {
                        s
                    },
                }
            },
            None => s,
        },
        Op::Modify { column } => s,
        Op::DropColumn { name } => match s.live {
            Some(cols) => Table { live: Some(without(cols, name)), dropped: s.dropped },
            None => s,
        },
        Op::Create { columns } => match s.live {
            Some(_) => s,
            None => if names(columns).no_duplicates() {
                Table { live: Some(names(columns)), dropped: s.dropped }
            } else {
                s
            },
        },
    }
}

/// The table after the database was asked `ops`, one after the other.
pub open spec fn run(s: Table, ops: Seq<Op>) -> Table
    decreases ops.len(),
{
    if ops.len() == 0 {
        s
    } else {
        apply(run(s, ops.drop_last()), ops.last())
    }
}

/// What `DESC` reports of a table: its columns, or nothing where it does
/// not exist.
pub open spec fn described(s: Table) -> Seq<Seq<char>> {
    match s.live {
        Some(cols) => cols,
        None => Seq::empty(),
    }
}

/// The table after the migration of `ddl`: after its first part and, unless
/// the table is dropped, after the second part for the columns that the
/// database reports in between.
pub open spec fn migrated(ddl: TableView, s: Table) -> Table {
    let first = run(s, ops_before(ddl));
    if reconciles(ddl.op) {
        run(first, ops_after(ddl, described(first)))
    } else {
        first
    }
}

/// Whether no rename can take away a column declared before it: a column
/// that is renamed from the name of an earlier column bears a name that an
/// earlier column bears too, so that its rename finds the new name taken
/// and does nothing. Any other such rename would take away a column that
/// the migration has just brought to its declared form.
pub open spec fn renames_forward(cols: Seq<ColumnView>) -> bool {
    forall|i: int, j: int|
        0 <= j < i < cols.len() && #[trigger] cols[i].op == DDLOpView::Rename(
            #[trigger] cols[j].name,
        ) ==> named_before(cols, i)
}

/// Whether a column declared before the one at `i` bears its name.
pub open spec fn named_before(cols: Seq<ColumnView>, i: int) -> bool {
    exists|k: int| 0 <= k < i && (#[trigger] cols[k]).name == cols[i].name
}

/// Asking `a` and then `b` is asking `a + b`.
pub proof fn lemma_run_concat(s: Table, a: Seq<Op>, b: Seq<Op>)
    ensures
        run(s, a + b) == run(run(s, a), b),
    decreases b.len(),
{
    if b.len() == 0 {
        assert(a + b =~= a);
    } else {
        lemma_run_concat(s, a, b.drop_last());
        assert((a + b).drop_last() =~= a + b.drop_last());
        assert((a + b).last() == b.last());
    }
}

/// Asking one thing.
pub proof fn lemma_run_one(s: Table, op: Op)
    ensures
        run(s, seq![op]) == apply(s, op),
{
    assert(seq![op].drop_last() =~= Seq::<Op>::empty());
    assert(run(s, seq![op].drop_last()) == s);
}

/// Asking what a column's statements ask: its rename where it has one,
/// then add and modify.
pub proof fn lemma_run_column(s: Table, cols: Seq<ColumnView>, i: int)
    requires
        0 <= i < cols.len(),
    ensures
        run(s, column_ops(cols, i)) == apply(
            apply(
                match cols[i].op {
                    DDLOpView::Rename(old) => apply(s, Op::Rename { old, column: cols[i] }),
                    DDLOpView::Keep => s,
                },
                Op::Add { column: cols[i], after: previous(cols, i) },
            ),
            Op::Modify { column: cols[i] },
        ),
{
    let add = Op::Add { column: cols[i], after: previous(cols, i) };
    let modify = Op::Modify { column: cols[i] };
    let head: Seq<Op> = match cols[i].op {
        DDLOpView::Rename(old) => seq![Op::Rename { old, column: cols[i] }],
        DDLOpView::Keep => Seq::empty(),
    };
    assert(column_ops(cols, i) =~= head + seq![add] + seq![modify]);
    lemma_run_concat(s, head + seq![add], seq![modify]);
    lemma_run_concat(s, head, seq![add]);
    lemma_run_one(run(s, head + seq![add]), modify);
    lemma_run_one(run(s, head), add);
    match cols[i].op {
        DDLOpView::Rename(old) => {
            lemma_run_one(s, Op::Rename { old, column: cols[i] });
        },
        DDLOpView::Keep => {},
    }
}

/// What `put_after` holds: the name put in, and what was there.
pub proof fn lemma_put_after(cols: Seq<Seq<char>>, k: int, name: Seq<char>)
    requires
        -1 <= k < cols.len(),
    ensures
        put_after(cols, k, name).contains(name),
        forall|other: Seq<char>| cols.contains(other) ==> put_after(cols, k, name).contains(other),
{
    let after = put_after(cols, k, name);
    assert(after[k + 1] == name);
    assert forall|other: Seq<char>| cols.contains(other) implies after.contains(other) by {
        let i = choose|i: int| 0 <= i < cols.len() && cols[i] == other;
        if i <= k {
            assert(after[i] == other);
        } else {
            assert(after[i + 1] == other);
        }
    }
}

/// What `without` holds: what was there, but the name taken away.
pub proof fn lemma_without(cols: Seq<Seq<char>>, name: Seq<char>)
    ensures
        forall|other: Seq<char>|
            without(cols, name).contains(other) <==> cols.contains(other) && other != name,
    decreases cols.len(),
{
    if cols.len() > 0 {
        let rest = cols.drop_last();
        lemma_without(rest, name);
        assert forall|other: Seq<char>|
            without(cols, name).contains(other) <==> cols.contains(other) && other
                != name by {
            if cols.contains(other) {
                let i = choose|i: int| 0 <= i < cols.len() && cols[i] == other;
                if i < rest.len() {
                    assert(rest[i] == other);
                }
            }
            if rest.contains(other) {
                let i = choose|i: int| 0 <= i < rest.len() && rest[i] == other;
                assert(cols[i] == other);
            }
            if cols.last() != name {
                let now = without(rest, name).push(cols.last());
                if without(rest, name).contains(other) {
                    let i = choose|i: int|
                        0 <= i < without(rest, name).len() && without(rest, name)[i] == other;
                    assert(now[i] == other);
                }
                assert(now[now.len() - 1] == cols.last());
                assert(cols[cols.len() - 1] == cols.last());
            }
        }
    }
}

/// Whether the table exists and has the first `n` declared columns.
pub open spec fn has_columns(s: Table, cols: Seq<ColumnView>, n: nat) -> bool {
    s.live matches Some(live) && forall|i: int| 0 <= i < n && i < cols.len() ==> live.contains(
        #[trigger] cols[i].name,
    )
}

/// On a table that has all declared columns, the statements for the
/// columns change nothing.
pub proof fn lemma_columns_stay(s: Table, cols: Seq<ColumnView>, n: nat)
    requires
        n <= cols.len(),
        has_columns(s, cols, cols.len()),
    ensures
        run(s, alter_ops(cols, n)) == s,
    decreases n,
{
    if n > 0 {
        lemma_columns_stay(s, cols, (n - 1) as nat);
        lemma_run_concat(s, alter_ops(cols, (n - 1) as nat), column_ops(cols, n - 1));
        lemma_run_column(s, cols, n - 1);
        assert(s.live->0.contains(cols[n - 1].name));
    }
}

/// On a table that exists, the statements for the first `n` columns bring
/// about these columns, where no rename can take away a column declared
/// before it. What was dropped stays as it is.
pub proof fn lemma_columns_come(s: Table, cols: Seq<ColumnView>, n: nat)
    requires
        n <= cols.len(),
        s.live is Some,
        renames_forward(cols),
    ensures
        has_columns(run(s, alter_ops(cols, n)), cols, n),
        run(s, alter_ops(cols, n)).dropped == s.dropped,
    decreases n,
{
    if n > 0 {
        let i = n - 1;
        let before = run(s, alter_ops(cols, i as nat));
        lemma_columns_come(s, cols, i as nat);
        lemma_run_concat(s, alter_ops(cols, i as nat), column_ops(cols, i));
        lemma_run_column(before, cols, i);
        let c = cols[i];
        let live0 = before.live->0;
        let renamed = match c.op {
            DDLOpView::Rename(old) => apply(before, Op::Rename { old, column: c }),
            DDLOpView::Keep => before,
        };
        assert(has_columns(renamed, cols, i as nat) && renamed.dropped == s.dropped) by {
            match c.op {
                DDLOpView::Rename(old) => {
                    if live0.contains(old) && !live0.contains(c.name) {
                        let k = position_of(live0, old);
                        let live1 = live0.update(k, c.name);
                        assert forall|j: int| 0 <= j < i implies live1.contains(
                            #[trigger] cols[j].name,
                        ) by {
                            assert(live0.contains(cols[j].name));
                            let at = choose|at: int|
                                0 <= at < live0.len() && live0[at] == cols[j].name;
                            if cols[j].name == old {
                                assert(cols[i].op == DDLOpView::Rename(cols[j].name));
                                assert(named_before(cols, i));
                                let e = choose|e: int|
                                    0 <= e < i && (#[trigger] cols[e]).name == cols[i].name;
                                assert(live0.contains(cols[e].name));
                            }
                            assert(at != k);
                            assert(live1[at] == cols[j].name);
                        }
                    }
                },
                DDLOpView::Keep => {},
            }
        }
        let live1 = renamed.live->0;
        let added = apply(renamed, Op::Add { column: c, after: previous(cols, i) });
        assert(has_columns(added, cols, n) && added.dropped == s.dropped) by {
            if !live1.contains(c.name) {
                if i == 0 {
                    lemma_put_after(live1, -1, c.name);
                } else {
                    let p = cols[i - 1].name;
                    assert(live1.contains(p));
                    let k = position_of(live1, p);
                    lemma_put_after(live1, k, c.name);
                }
            }
        }
    }
}

/// Whether `name` is among the first `n` of `existing`.
pub open spec fn among(existing: Seq<Seq<char>>, n: nat, name: Seq<char>) -> bool {
    exists|k: int| 0 <= k < n && k < existing.len() && #[trigger] existing[k] == name
}

/// A name is among the first `n` where it is among those before the last
/// of them, or is the last of them.
pub proof fn lemma_among(existing: Seq<Seq<char>>, n: nat, name: Seq<char>)
    requires
        0 < n <= existing.len(),
    ensures
        among(existing, n, name) <==> among(existing, (n - 1) as nat, name) || existing[n - 1]
            == name,
{
    if among(existing, n, name) {
        let k = choose|k: int| 0 <= k < n && k < existing.len() && #[trigger] existing[k] == name;
        if k < n - 1 {
            assert(among(existing, (n - 1) as nat, name));
        }
    }
    if among(existing, (n - 1) as nat, name) {
        let k = choose|k: int|
            0 <= k < n - 1 && k < existing.len() && #[trigger] existing[k] == name;
        assert(0 <= k < n && existing[k] == name);
    }
    if existing[n - 1] == name {
        assert(0 <= n - 1 < n && existing[n - 1] == name);
    }
}

/// Whether `left` is what is left of `existing` after the undeclared among
/// its first `n` columns were dropped: each declared column, and of the
/// undeclared those that were not among the first `n`.
pub open spec fn left_of(
    left: Seq<Seq<char>>,
    existing: Seq<Seq<char>>,
    cols: Seq<ColumnView>,
    n: nat,
) -> bool {
    forall|name: Seq<char>| #[trigger]
        left.contains(name) <==> existing.contains(name) && (declares(cols, name) || !among(
            existing,
            n,
            name,
        ))
}

/// Dropping the undeclared among the first `n` columns that a table has
/// leaves what `left_of` says, and what was dropped stays as it is.
pub proof fn lemma_drops(s: Table, cols: Seq<ColumnView>, n: nat)
    requires
        s.live is Some,
        n <= s.live->0.len(),
    ensures
        run(s, drop_ops(cols, s.live->0, n)).dropped == s.dropped,
        run(s, drop_ops(cols, s.live->0, n)).live matches Some(left) && left_of(
            left,
            s.live->0,
            cols,
            n,
        ),
    decreases n,
{
    let existing = s.live->0;
    if n > 0 {
        lemma_drops(s, cols, (n - 1) as nat);
        let before = run(s, drop_ops(cols, existing, (n - 1) as nat));
        let left0 = before.live->0;
        let gone = existing[n - 1];
        if declares(cols, gone) {
            assert forall|name: Seq<char>| #[trigger]
                left0.contains(name) <==> existing.contains(name) && (declares(cols, name)
                    || !among(existing, n, name)) by {
                lemma_among(existing, n, name);
            }
        } else {
            let ops = drop_ops(cols, existing, (n - 1) as nat);
            let drop = Op::DropColumn { name: gone };
            assert(drop_ops(cols, existing, n) == ops.push(drop));
            assert(ops.push(drop).drop_last() =~= ops);
            assert(ops.push(drop).last() == drop);
            assert(run(s, drop_ops(cols, existing, n)) == apply(before, drop));
            lemma_without(left0, gone);
            let left = without(left0, gone);
            assert(run(s, drop_ops(cols, existing, n)).live == Some(left));
            assert forall|name: Seq<char>| #[trigger]
                left.contains(name) <==> existing.contains(name) && (declares(cols, name)
                    || !among(existing, n, name)) by {
                lemma_among(existing, n, name);
                assert(left.contains(name) <==> left0.contains(name) && name != gone);
                assert(left0.contains(name) <==> existing.contains(name) && (declares(cols, name)
                    || !among(existing, (n - 1) as nat, name)));
            }
        }
    } else {
        assert forall|name: Seq<char>| #[trigger]
            existing.contains(name) <==> existing.contains(name) && (declares(cols, name)
                || !among(existing, n, name)) by {}
    }
}

/// On a table that has no undeclared column, no column is dropped.
pub proof fn lemma_no_drops(cols: Seq<ColumnView>, existing: Seq<Seq<char>>, n: nat)
    requires
        n <= existing.len(),
        forall|k: int| 0 <= k < existing.len() ==> declares(cols, #[trigger] existing[k]),
    ensures
        drop_ops(cols, existing, n) == Seq::<Op>::empty(),
    decreases n,
{
    if n > 0 {
        lemma_no_drops(cols, existing, (n - 1) as nat);
    }
}

/// Whether a table is as its declaration says: it exists, has each
/// declared column, and no other.
pub open spec fn converged(s: Table, cols: Seq<ColumnView>) -> bool {
    &&& has_columns(s, cols, cols.len())
    &&& forall|k: int| 0 <= k < s.live->0.len() ==> declares(cols, #[trigger] s.live->0[k])
}

/// A migration changes nothing of a table that is as its declaration
/// says.
pub proof fn lemma_converged_stays(ddl: TableView, s: Table)
    requires
        reconciles(ddl.op),
        converged(s, ddl.cols),
    ensures
        migrated(ddl, s) == s,
{
    let alter = alter_ops(ddl.cols, ddl.cols.len());
    lemma_columns_stay(s, ddl.cols, ddl.cols.len());
    if ddl.op is Undrop {
        lemma_run_concat(s, seq![Op::Undrop], alter);
        lemma_run_one(s, Op::Undrop);
    }
    assert(run(s, ops_before(ddl)) == s);
    lemma_no_drops(ddl.cols, s.live->0, s.live->0.len());
    lemma_run_one(s, Op::Create { columns: ddl.cols });
    assert(ops_after(ddl, described(s)) =~= seq![Op::Create { columns: ddl.cols }]);
}

/// After a migration a table is dropped, or as its declaration says, or
/// it does not exist and the migration changed nothing. This holds where no
/// rename can take away a column declared before it.
pub proof fn lemma_migration_ends(ddl: TableView, s: Table)
    requires
        renames_forward(ddl.cols),
    ensures
        !reconciles(ddl.op) ==> migrated(ddl, s).live is None,
        reconciles(ddl.op) ==> converged(migrated(ddl, s), ddl.cols) || (migrated(ddl, s) == s
            && s.live is None && (ddl.op is Undrop ==> s.dropped is None)),
{
    let cols = ddl.cols;
    let alter = alter_ops(cols, cols.len());
    if !reconciles(ddl.op) {
        if ddl.op is Drop {
            lemma_run_one(s, Op::DropTable { purge: false });
        } else {
            lemma_run_one(s, Op::DropTable { purge: true });
        }
    } else {
        let start = if ddl.op is Undrop {
            apply(s, Op::Undrop)
        } else {
            s
        };
        if ddl.op is Undrop {
            lemma_run_concat(s, seq![Op::Undrop], alter);
            lemma_run_one(s, Op::Undrop);
        }
        assert(run(s, ops_before(ddl)) == run(start, alter));
        let first = run(start, alter);
        if start.live is Some {
            lemma_columns_come(start, cols, cols.len());
            let existing = first.live->0;
            lemma_drops(first, cols, existing.len());
            let drops = drop_ops(cols, existing, existing.len());
            let second = run(first, drops);
            lemma_run_concat(first, drops, seq![Op::Create { columns: cols }]);
            lemma_run_one(second, Op::Create { columns: cols });
            assert(ops_after(ddl, existing) =~= drops + seq![Op::Create { columns: cols }]);
            assert(migrated(ddl, s) == second);
            let left = second.live->0;
            assert forall|i: int| 0 <= i < cols.len() implies left.contains(
                #[trigger] cols[i].name,
            ) by {
                assert(existing.contains(cols[i].name));
                assert(declares(cols, cols[i].name));
            }
            assert forall|k: int| 0 <= k < left.len() implies declares(cols, #[trigger] left[k]) by {
                let name = left[k];
                assert(left.contains(name));
                assert(existing.contains(name));
                let at = choose|at: int| 0 <= at < existing.len() && existing[at] == name;
                assert(among(existing, existing.len(), name));
            }
        } else {
            lemma_absent_stays(start, cols, cols.len());
            assert(first == start);
            assert(described(first) =~= Seq::<Seq<char>>::empty());
            assert(drop_ops(cols, Seq::<Seq<char>>::empty(), 0) =~= Seq::<Op>::empty());
            assert(ops_after(ddl, described(first)) =~= seq![Op::Create { columns: cols }]);
            lemma_run_one(first, Op::Create { columns: cols });
            if names(cols).no_duplicates() {
                let made = names(cols);
                assert forall|i: int| 0 <= i < cols.len() implies made.contains(
                    #[trigger] cols[i].name,
                ) by {
                    assert(made[i] == cols[i].name);
                }
                assert forall|k: int| 0 <= k < made.len() implies declares(
                    cols,
                    #[trigger] made[k],
                ) by {
                    assert(cols[k].name == made[k]);
                }
            }
        }
    }
}

/// On a table that does not exist, the statements for the columns change
/// nothing.
pub proof fn lemma_absent_stays(s: Table, cols: Seq<ColumnView>, n: nat)
    requires
        n <= cols.len(),
        s.live is None,
    ensures
        run(s, alter_ops(cols, n)) == s,
    decreases n,
{
    if n > 0 {
        lemma_absent_stays(s, cols, (n - 1) as nat);
        lemma_run_concat(s, alter_ops(cols, (n - 1) as nat), column_ops(cols, n - 1));
        lemma_run_column(s, cols, n - 1);
    }
}

/// A migration is idempotent: running it a second time changes nothing, so
/// that the database reports the same columns after the second run as after
/// the first. This holds of every table, and of every declaration in which
/// no rename can take away a column declared before it: a declaration that
/// renames a column from the name of an earlier one, to a name that no
/// earlier column bears, undoes at each run what it did for the earlier
/// column.
pub proof fn lemma_migration_idempotent(ddl: TableView, s: Table)
    requires
        renames_forward(ddl.cols),
    ensures
        migrated(ddl, migrated(ddl, s)) == migrated(ddl, s),
        described(migrated(ddl, migrated(ddl, s))) == described(migrated(ddl, s)),
{
    let once = migrated(ddl, s);
    lemma_migration_ends(ddl, s);
    if !reconciles(ddl.op) {
        if ddl.op is Drop {
            lemma_run_one(once, Op::DropTable { purge: false });
        } else {
            lemma_run_one(once, Op::DropTable { purge: true });
        }
    } else if converged(once, ddl.cols) {
        lemma_converged_stays(ddl, once);
    }
}

} // verus!
