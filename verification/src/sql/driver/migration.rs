//! The migration procedure of one table.
//!
//! A declared table is reconciled with the database by a fixed run of
//! statements, each tolerant of what it finds: a column is added and then
//! modified, so that it ends as declared whether it was there or not, and
//! the table is created last, if it was not there at all. Only the columns
//! to drop depend on the database: they are those that `DESC` reports and
//! the declaration does not name.
//!
//! The procedure here decides which statements to run; running them is the
//! caller's part.

use vstd::prelude::*;
use crate::sql::driver::model::render_value;
use crate::sql::driver::model::sql_render_value;
use crate::sql::driver::model::ColumnDDL;
use crate::sql::driver::model::ColumnView;
use crate::sql::driver::model::DDLOp;
use crate::sql::driver::model::DDLOpView;
use crate::sql::driver::model::SqlValue;
use crate::sql::driver::model::SqlValueView;
use crate::sql::driver::model::TableDDL;
use crate::sql::driver::model::TableDDLOp;
use crate::sql::driver::model::TableView;
use crate::text::copy_str;
use crate::text::str_eq;

verus! {

/// A statement to run, and whether its failure fails the migration.
#[derive(Debug, PartialEq, Eq)]
pub struct Statement {
    pub sql: String,
    pub fatal: bool,
}

/// The mathematical value of a `Statement`.
pub struct StatementView {
    pub sql: Seq<char>,
    pub fatal: bool,
}

impl View for Statement {
    type V = StatementView;

    open spec fn view(&self) -> StatementView {
        StatementView { sql: self.sql@, fatal: self.fatal }
    }
}

/// The values of a list of statements.
pub open spec fn statements_view(s: Seq<Statement>) -> Seq<StatementView> {
    Seq::new(s.len(), |i: int| s[i]@)
}

/// A statement whose failure is passed over.
pub open spec fn tolerant(sql: Seq<char>) -> StatementView {
    StatementView { sql, fatal: false }
}

/// The first part of a table's migration: the statements to run, and the
/// `DESC` query to put to the database after them, if any.
#[derive(Debug, PartialEq, Eq)]
pub struct TablePlan {
    pub statements: Vec<Statement>,
    pub describe: Option<String>,
}

/// The mathematical value of a `TablePlan`.
pub struct TablePlanView {
    pub statements: Seq<StatementView>,
    pub describe: Option<Seq<char>>,
}

impl View for TablePlan {
    type V = TablePlanView;

    open spec fn view(&self) -> TablePlanView {
        TablePlanView {
            statements: statements_view(self.statements@),
            describe: match self.describe {
                Some(q) => Some(q@),
                None => None,
            },
        }
    }
}

/// The name of a tenant's table, qualified by the tenant's database.
pub open spec fn qualified(org: Seq<char>, table: Seq<char>) -> Seq<char> {
    org + "."@ + table
}

/// The `DEFAULT` clause of a column; empty where it has no default.
pub open spec fn default_clause(default: Option<SqlValueView>) -> Seq<char> {
    match default {
        Some(v) => " DEFAULT "@ + render_value(v),
        None => Seq::empty(),
    }
}

/// A column as `CREATE TABLE` and `MODIFY COLUMN` take it: name and type,
/// `NULL` where it admits null, and its default.
pub open spec fn column_text(c: ColumnView) -> Seq<char> {
    c.name + " "@ + c.ty + (if c.opt {
        " NULL"@
    } else {
        Seq::empty()
    }) + default_clause(c.default)
}

/// The statement that renames the column `old` of `t` to `new`.
pub open spec fn rename_sql(t: Seq<char>, old: Seq<char>, new: Seq<char>) -> Seq<char> {
    "ALTER TABLE IF EXISTS "@ + t + " RENAME COLUMN "@ + old + " "@ + new + ";"@
}

/// The statement that adds the column `c` to `t`: first, or after the column
/// `after`.
pub open spec fn add_sql(t: Seq<char>, c: ColumnView, after: Option<Seq<char>>) -> Seq<char> {
    "ALTER TABLE IF EXISTS "@ + t + " ADD COLUMN "@ + c.name + " "@ + c.ty + " "@ + (if c.opt {
        "NULL"@
    } else {
        "NOT NULL"@
    }) + default_clause(c.default) + " "@ + (match after {
        Some(prev) => "AFTER "@ + prev,
        None => "FIRST"@,
    }) + ";"@
}

/// The statement that brings the column `c` of `t` to its declared type,
/// nullability and default.
pub open spec fn modify_sql(t: Seq<char>, c: ColumnView) -> Seq<char> {
    "ALTER TABLE IF EXISTS "@ + t + " MODIFY COLUMN "@ + column_text(c) + ";"@
}

/// The column before position `i`, if there is one.
pub open spec fn previous(cols: Seq<ColumnView>, i: int) -> Option<Seq<char>> {
    if 0 < i <= cols.len() {
        Some(cols[i - 1].name)
    } else {
        None
    }
}

/// The statements for the column at position `i`: its rename where it asks
/// for one, then add and modify.
pub open spec fn column_statements(t: Seq<char>, cols: Seq<ColumnView>, i: int) -> Seq<
    StatementView,
> {
    (match cols[i].op {
        DDLOpView::Rename(old) => seq![tolerant(rename_sql(t, old, cols[i].name))],
        DDLOpView::Keep => Seq::empty(),
    }) + seq![
        tolerant(add_sql(t, cols[i], previous(cols, i))),
        tolerant(modify_sql(t, cols[i])),
    ]
}

/// The statements for the first `n` columns, in declared order.
pub open spec fn alter_statements(t: Seq<char>, cols: Seq<ColumnView>, n: nat) -> Seq<
    StatementView,
>
    decreases n,
{
    if n == 0 || n > cols.len() {
        Seq::empty()
    } else {
        alter_statements(t, cols, (n - 1) as nat) + column_statements(t, cols, n - 1)
    }
}

/// Whether a table's migration goes on to reconcile its columns: it does
/// unless the table is dropped.
pub open spec fn reconciles(op: TableDDLOp) -> bool {
    !(op is Drop || op is DropAll)
}

/// The first part of the migration of `ddl` for the tenant `org`.
///
/// A dropped table takes one statement and nothing more. Otherwise an
/// undropped table is brought back first; then each column is added and
/// modified, and `DESC` is put to the database.
pub open spec fn plan(ddl: TableView, org: Seq<char>) -> TablePlanView {
    let t = qualified(org, ddl.name);
    match ddl.op {
        TableDDLOp::Drop => TablePlanView {
            statements: seq![tolerant("DROP TABLE IF EXISTS "@ + t + ";"@)],
            describe: None,
        },
        TableDDLOp::DropAll => TablePlanView {
            statements: seq![tolerant("DROP TABLE IF EXISTS "@ + t + " ALL;"@)],
            describe: None,
        },
        TableDDLOp::Undrop => TablePlanView {
            statements: seq![tolerant("UNDROP TABLE "@ + t + ";"@)] + alter_statements(
                t,
                ddl.cols,
                ddl.cols.len(),
            ),
            describe: Some("DESC "@ + t),
        },
        TableDDLOp::CreateOrAlter => TablePlanView {
            statements: alter_statements(t, ddl.cols, ddl.cols.len()),
            describe: Some("DESC "@ + t),
        },
    }
}

/// Whether the declaration names the column `name`.
pub open spec fn declares(cols: Seq<ColumnView>, name: Seq<char>) -> bool {
    exists|i: int| 0 <= i < cols.len() && #[trigger] cols[i].name == name
}

/// The statement that drops the column `name` of `t`.
pub open spec fn drop_sql(t: Seq<char>, name: Seq<char>) -> Seq<char> {
    "ALTER TABLE "@ + t + " DROP COLUMN "@ + name + ";"@
}

/// The statements that drop, among the first `n` existing columns, those
/// that the declaration does not name.
pub open spec fn drop_statements(
    t: Seq<char>,
    cols: Seq<ColumnView>,
    existing: Seq<Seq<char>>,
    n: nat,
) -> Seq<StatementView>
    decreases n,
{
    if n == 0 || n > existing.len() {
        Seq::empty()
    } else if declares(cols, existing[n - 1]) {
        drop_statements(t, cols, existing, (n - 1) as nat)
    } else {
        drop_statements(t, cols, existing, (n - 1) as nat).push(
            tolerant(drop_sql(t, existing[n - 1])),
        )
    }
}

/// The first `n` declared columns, separated by a comma and a space.
pub open spec fn column_list(cols: Seq<ColumnView>, n: nat) -> Seq<char>
    decreases n,
{
    if n == 0 || n > cols.len() {
        Seq::empty()
    } else if n == 1 {
        column_text(cols[0])
    } else {
        column_list(cols, (n - 1) as nat) + ", "@ + column_text(cols[n - 1])
    }
}

/// The statement that creates `t` with the declared columns where it does
/// not exist.
pub open spec fn create_sql(t: Seq<char>, cols: Seq<ColumnView>) -> Seq<char> {
    "CREATE TABLE IF NOT EXISTS "@ + t + " ("@ + column_list(cols, cols.len()) + ");"@
}

/// The second part of the migration of `ddl`, given the names of the
/// columns that `DESC` reported: the undeclared columns are dropped, then
/// the table is created where it does not exist. Only the failure of the
/// last statement fails the migration.
pub open spec fn reconciliation(ddl: TableView, org: Seq<char>, existing: Seq<Seq<char>>) -> Seq<
    StatementView,
> {
    let t = qualified(org, ddl.name);
    drop_statements(t, ddl.cols, existing, existing.len()).push(
        StatementView { sql: create_sql(t, ddl.cols), fatal: true },
    )
}

/// The qualified name of the table `table` of the tenant `org`.
fn qualified_name(org: &str, table: &str) -> (r: String)
    ensures
        r@ == qualified(org@, table@),
{
    let mut r = copy_str(org);
    r.append(".");
    r.append(table);
    r
}

/// The `DEFAULT` clause of a column.
fn default_text(default: &Option<SqlValue>) -> (r: String)
    ensures
        r@ == default_clause(
            match *default {
                Some(v) => Some(v@),
                None => None,
            },
        ),
{
    match default {
        Some(v) => {
            let mut r = copy_str(" DEFAULT ");
            let value = sql_render_value(v);
            r.append(value.as_str());
            r
        },
        None => String::new(),
    }
}

/// A column as `CREATE TABLE` and `MODIFY COLUMN` take it.
fn column_sql(c: &ColumnDDL) -> (r: String)
    ensures
        r@ == column_text(c@),
{
    let mut r = copy_str(c.name.as_str());
    r.append(" ");
    r.append(c.ty.as_str());
    if c.opt {
        r.append(" NULL");
    } else {
        assert(r@ + Seq::<char>::empty() =~= r@);
    }
    let default = default_text(&c.default);
    r.append(default.as_str());
    r
}

/// A statement whose failure is passed over.
fn tolerant_statement(sql: String) -> (r: Statement)
    ensures
        r@ == tolerant(sql@),
{
    Statement { sql, fatal: false }
}

/// Appends the statements for the column at position `i`.
fn push_column_statements(out: &mut Vec<Statement>, t: &str, cols: &Vec<ColumnDDL>, i: usize)
    requires
        i < cols@.len(),
    ensures
        statements_view(final(out)@) == statements_view(old(out)@) + column_statements(
            t@,
            Seq::new(cols@.len(), |k: int| cols@[k]@),
            i as int,
        ),
{
    let ghost before = statements_view(out@);
    let ghost views = Seq::new(cols@.len(), |k: int| cols@[k]@);
    let c = &cols[i];
    assert(views[i as int] == c@);
    match &c.op {
        DDLOp::Rename(old) => {
            let mut s = copy_str("ALTER TABLE IF EXISTS ");
            s.append(t);
            s.append(" RENAME COLUMN ");
            s.append(old.as_str());
            s.append(" ");
            s.append(c.name.as_str());
            s.append(";");
            out.push(tolerant_statement(s));
        },
        DDLOp::Keep => {},
    }
    let ghost renamed = statements_view(out@);
    let mut add = copy_str("ALTER TABLE IF EXISTS ");
    add.append(t);
    add.append(" ADD COLUMN ");
    add.append(c.name.as_str());
    add.append(" ");
    add.append(c.ty.as_str());
    add.append(" ");
    if c.opt {
        add.append("NULL");
    } else {
        add.append("NOT NULL");
    }
    let default = default_text(&c.default);
    add.append(default.as_str());
    add.append(" ");
    if i == 0 {
        add.append("FIRST");
    } else {
        let mut position = copy_str("AFTER ");
        position.append(cols[i - 1].name.as_str());
        assert(views[i - 1] == cols@[i - 1]@);
        add.append(position.as_str());
    }
    add.append(";");
    assert(add@ == add_sql(t@, c@, previous(views, i as int)));
    let mut modify = copy_str("ALTER TABLE IF EXISTS ");
    modify.append(t);
    modify.append(" MODIFY COLUMN ");
    let column = column_sql(c);
    modify.append(column.as_str());
    modify.append(";");
    out.push(tolerant_statement(add));
    out.push(tolerant_statement(modify));
    proof {
        assert(statements_view(out@) =~= before + column_statements(t@, views, i as int));
    }
}

/// Whether the declaration names the column `name`.
fn is_declared(cols: &Vec<ColumnDDL>, name: &str) -> (r: bool)
    ensures
        r == declares(Seq::new(cols@.len(), |k: int| cols@[k]@), name@),
{
    let ghost views = Seq::new(cols@.len(), |k: int| cols@[k]@);
    let mut i: usize = 0;
    while i < cols.len()
        invariant
            i <= cols@.len(),
            views == Seq::new(cols@.len(), |k: int| cols@[k]@),
            forall|k: int| 0 <= k < i ==> #[trigger] views[k].name != name@,
        decreases cols@.len() - i,
    {
        if str_eq(cols[i].name.as_str(), name) {
            assert(views[i as int].name == name@);
            return true;
        }
        i += 1;
    }
    false
}

/// The declared columns, separated by a comma and a space.
fn column_list_sql(cols: &Vec<ColumnDDL>) -> (r: String)
    ensures
        r@ == column_list(Seq::new(cols@.len(), |k: int| cols@[k]@), cols@.len()),
{
    let ghost views = Seq::new(cols@.len(), |k: int| cols@[k]@);
    let mut r = String::new();
    let mut i: usize = 0;
    while i < cols.len()
        invariant
            i <= cols@.len(),
            views == Seq::new(cols@.len(), |k: int| cols@[k]@),
            r@ == column_list(views, i as nat),
        decreases cols@.len() - i,
    {
        assert(views[i as int] == cols@[i as int]@);
        let column = column_sql(&cols[i]);
        if i > 0 {
            r.append(", ");
            r.append(column.as_str());
        } else {
            r.append(column.as_str());
            assert(r@ =~= column_text(views[0]));
        }
        i += 1;
    }
    r
}

/// Plans the first part of the migration of the table `ddl` of the tenant
/// `org`: the statements to run, each tolerant of failure, and the `DESC`
/// query to put to the database after them unless the table is dropped.
pub fn migrate_table(ddl: &TableDDL, org: &str) -> (r: TablePlan)
    ensures
        r@ == plan(ddl@, org@),
{
    let t = qualified_name(org, ddl.name.as_str());
    let mut statements: Vec<Statement> = Vec::new();
    match ddl.op {
        TableDDLOp::Drop => {
            let mut s = copy_str("DROP TABLE IF EXISTS ");
            s.append(t.as_str());
            s.append(";");
            statements.push(tolerant_statement(s));
            let r = TablePlan { statements, describe: None };
            proof {
                assert(r@.statements =~= plan(ddl@, org@).statements);
            }
            return r;
        },
        TableDDLOp::DropAll => {
            let mut s = copy_str("DROP TABLE IF EXISTS ");
            s.append(t.as_str());
            s.append(" ALL;");
            statements.push(tolerant_statement(s));
            let r = TablePlan { statements, describe: None };
            proof {
                assert(r@.statements =~= plan(ddl@, org@).statements);
            }
            return r;
        },
        TableDDLOp::Undrop => {
            let mut s = copy_str("UNDROP TABLE ");
            s.append(t.as_str());
            s.append(";");
            statements.push(tolerant_statement(s));
        },
        TableDDLOp::CreateOrAlter => {},
    }
    let ghost head = statements_view(statements@);
    let ghost views = ddl@.cols;
    let mut i: usize = 0;
    proof {
        assert(head + alter_statements(t@, views, 0) =~= head);
    }
    while i < ddl.cols.len()
        invariant
            i <= ddl.cols@.len(),
            views == Seq::new(ddl.cols@.len(), |k: int| ddl.cols@[k]@),
            statements_view(statements@) == head + alter_statements(t@, views, i as nat),
        decreases ddl.cols@.len() - i,
    {
        let ghost before = statements_view(statements@);
        push_column_statements(&mut statements, t.as_str(), &ddl.cols, i);
        i += 1;
        proof {
            assert(statements_view(statements@) =~= head + alter_statements(t@, views, i as nat));
        }
    }
    let mut describe = copy_str("DESC ");
    describe.append(t.as_str());
    let r = TablePlan { statements, describe: Some(describe) };
    proof {
        assert(r@.statements =~= plan(ddl@, org@).statements);
    }
    r
}

/// Plans the second part of the migration of the table `ddl` of the tenant
/// `org`, given the names of the columns that `DESC` reported (none where
/// the table does not exist): a statement for each of them that the
/// declaration does not name, tolerant of failure, and last the statement
/// that creates the table, whose failure fails the migration.
pub fn reconcile_table(ddl: &TableDDL, org: &str, existing: &Vec<String>) -> (r: Vec<Statement>)
    ensures
        statements_view(r@) == reconciliation(
            ddl@,
            org@,
            crate::text::strings_view(existing@),
        ),
{
    let t = qualified_name(org, ddl.name.as_str());
    let ghost views = ddl@.cols;
    let ghost names = crate::text::strings_view(existing@);
    let mut out: Vec<Statement> = Vec::new();
    let mut i: usize = 0;
    proof {
        assert(statements_view(out@) =~= drop_statements(t@, views, names, 0));
    }
    while i < existing.len()
        invariant
            i <= existing@.len(),
            views == Seq::new(ddl.cols@.len(), |k: int| ddl.cols@[k]@),
            names == crate::text::strings_view(existing@),
            statements_view(out@) == drop_statements(t@, views, names, i as nat),
        decreases existing@.len() - i,
    {
        let ghost before = statements_view(out@);
        assert(names[i as int] == existing@[i as int]@);
        if !is_declared(&ddl.cols, existing[i].as_str()) {
            let mut s = copy_str("ALTER TABLE ");
            s.append(t.as_str());
            s.append(" DROP COLUMN ");
            s.append(existing[i].as_str());
            s.append(";");
            out.push(tolerant_statement(s));
            proof {
                assert(statements_view(out@) =~= before.push(
                    tolerant(drop_sql(t@, names[i as int])),
                ));
            }
        }
        i += 1;
    }
    let ghost drops = statements_view(out@);
    let mut create = copy_str("CREATE TABLE IF NOT EXISTS ");
    create.append(t.as_str());
    create.append(" (");
    let list = column_list_sql(&ddl.cols);
    create.append(list.as_str());
    create.append(");");
    out.push(Statement { sql: create, fatal: true });
    proof {
        assert(statements_view(out@) =~= drops.push(
            StatementView { sql: create_sql(t@, views), fatal: true },
        ));
    }
    out
}

/// Where the database holds no column that the declaration does not name,
/// no column is dropped. So once a migration has brought the table to its
/// declared columns, running it again drops nothing.
pub proof fn lemma_declared_columns_stay(
    t: Seq<char>,
    cols: Seq<ColumnView>,
    existing: Seq<Seq<char>>,
    n: nat,
)
    requires
        n <= existing.len(),
        forall|k: int| 0 <= k < existing.len() ==> declares(cols, #[trigger] existing[k]),
    ensures
        drop_statements(t, cols, existing, n) == Seq::<StatementView>::empty(),
    decreases n,
{
    if n > 0 {
        lemma_declared_columns_stay(t, cols, existing, (n - 1) as nat);
    }
}

/// Whether `s` drops one of the first `n` existing columns, one that the
/// declaration does not name, and tolerates failure.
pub open spec fn drops_undeclared(
    s: StatementView,
    t: Seq<char>,
    cols: Seq<ColumnView>,
    existing: Seq<Seq<char>>,
    n: nat,
) -> bool {
    !s.fatal && exists|k: int|
        0 <= k < n && !declares(cols, #[trigger] existing[k]) && s.sql == drop_sql(t, existing[k])
}

/// A column is dropped only if the database holds it and the declaration
/// does not name it.
pub proof fn lemma_drops_are_undeclared(
    t: Seq<char>,
    cols: Seq<ColumnView>,
    existing: Seq<Seq<char>>,
    n: nat,
)
    requires
        n <= existing.len(),
    ensures
        forall|j: int|
            0 <= j < drop_statements(t, cols, existing, n).len() ==> drops_undeclared(
                #[trigger] drop_statements(t, cols, existing, n)[j],
                t,
                cols,
                existing,
                n,
            ),
    decreases n,
{
    if n > 0 {
        lemma_drops_are_undeclared(t, cols, existing, (n - 1) as nat);
        let before = drop_statements(t, cols, existing, (n - 1) as nat);
        let now = drop_statements(t, cols, existing, n);
        assert forall|j: int| 0 <= j < now.len() implies drops_undeclared(
            #[trigger] now[j],
            t,
            cols,
            existing,
            n,
        ) by {
            if j < before.len() {
                assert(now[j] == before[j]);
                assert(drops_undeclared(before[j], t, cols, existing, (n - 1) as nat));
                let k = choose|k: int|
                    0 <= k < n - 1 && !declares(cols, #[trigger] existing[k]) && before[j].sql
                        == drop_sql(t, existing[k]);
                assert(0 <= k < n && !declares(cols, existing[k]) && now[j].sql == drop_sql(
                    t,
                    existing[k],
                ));
            } else {
                assert(!declares(cols, existing[n - 1]));
                assert(now[j].sql == drop_sql(t, existing[n - 1]));
            }
        }
    }
}

} // verus!
