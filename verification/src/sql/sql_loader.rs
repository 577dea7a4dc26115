//! The table definitions and the connection settings of a tenant's modules.
//!
//! A module declares its tables by exports `table_ddl_<table>` and may say
//! where its database is by an export `settings_db_conn`, which returns JSON
//! text `{url, db_name?}`. Without that export the address comes from the
//! host's configuration, a template in which `{{org}}` stands for the
//! tenant.

use vstd::prelude::*;
use crate::json::json_parse;
use crate::json::Json;
use crate::json::JsonView;
use crate::sql::driver::databend::Databend;
use crate::sql::driver::databend::DatabendConnParams;
use crate::sql::driver::databend::DatabendPool;
use crate::sql::driver::migration::migrate_table;
use crate::sql::driver::migration::plan;
use crate::sql::driver::migration::Statement;
use crate::sql::driver::migration::StatementView;
use crate::sql::driver::migration::TablePlan;
use crate::sql::driver::migration::TablePlanView;
use crate::sql::driver::model::TableDDL;
use crate::sql::driver::model::DB;
use crate::sql::driver::model::TableView;
use crate::text::copy_str;
use crate::text::replace;
use crate::text::spec_replace;
use crate::text::starts_with;
use crate::wasm::wasm_loader::find_export;
use crate::wasm::wasm_loader::ExportView;
use crate::wasm::wasm_loader::ExternKind;
use crate::wasm::wasm_loader::Exports;

verus! {

/// Why a module's database cannot be told.
#[derive(Debug, Clone, Copy, PartialEq, Eq, Structural)]
pub enum DbConnError {
    /// The settings export could not be called.
    Invocation,
    /// The settings are not JSON, or lack a text `url`, or name the database
    /// by something that is no text.
    InvalidSettings,
    /// The module has no settings export and the host no address template.
    NoUrl,
}

/// Why a migration fails.
#[derive(Debug, PartialEq, Eq)]
pub enum MigrationError {
    /// The module has no database pool.
    NoPool,
    /// The pool gave no connection.
    NoConnection,
    /// The statement given failed, and its failure is not tolerated.
    Failed(String),
}

/// The mathematical value of a `MigrationError`.
pub enum MigrationErrorView {
    NoPool,
    NoConnection,
    Failed(Seq<char>),
}

impl View for MigrationError {
    type V = MigrationErrorView;

    open spec fn view(&self) -> MigrationErrorView {
        match self {
            MigrationError::NoPool => MigrationErrorView::NoPool,
            MigrationError::NoConnection => MigrationErrorView::NoConnection,
            MigrationError::Failed(sql) => MigrationErrorView::Failed(sql@),
        }
    }
}

impl Statement {
    /// What the failure of the statement means for the migration: its end
    /// where the statement is fatal, nothing otherwise.
    pub fn failure(&self) -> (r: Option<MigrationError>)
        ensures
            match r {
                Some(e) => self.fatal && e@ == MigrationErrorView::Failed(self.sql@),
                None => !self.fatal,
            },
    {
        if self.fatal {
            Some(MigrationError::Failed(copy_str(self.sql.as_str())))
        } else {
            None
        }
    }
}

/// The tables that one module declares, and the pool of its database.
#[derive(Debug, PartialEq, Eq)]
pub struct SqlModule {
    pub tables: Vec<TableDDL>,
    pub pool: Option<DatabendPool>,
}

/// The values of a list of tables.
pub open spec fn tables_view(s: Seq<TableDDL>) -> Seq<TableView> {
    Seq::new(s.len(), |i: int| s[i]@)
}

/// The mathematical value of an `SqlModule`: its tables, and the address
/// and name of its database where it has a pool.
pub struct SqlModuleView {
    pub tables: Seq<TableView>,
    pub pool: Option<(Seq<char>, Seq<char>)>,
}

impl View for SqlModule {
    type V = SqlModuleView;

    open spec fn view(&self) -> SqlModuleView {
        SqlModuleView {
            tables: tables_view(self.tables@),
            pool: match self.pool {
                Some(pool) => Some((pool.conn_str@, pool.db_name@)),
                None => None,
            },
        }
    }
}

/// The values of a list of modules.
pub open spec fn sql_modules_view(s: Seq<SqlModule>) -> Seq<SqlModuleView> {
    Seq::new(s.len(), |i: int| s[i]@)
}

/// The module that declares the tables read and has the pool of the
/// database that the instance's settings or the host's template tell.
pub open spec fn declared_module(
    exports: Seq<ExportView>,
    read: Seq<Option<TableDDL>>,
    org: Seq<char>,
    env_url: Option<Seq<char>>,
) -> SqlModuleView {
    SqlModuleView {
        tables: kept(read, read.len()),
        pool: match db_conn(exports, org, env_url) {
            Ok(p) => Some(p),
            Err(_) => None,
        },
    }
}

/// The migration of one module: the pool to run it on, the statement that
/// creates the tenant's database, and the first part of each table's
/// migration.
#[derive(Debug, PartialEq, Eq)]
pub struct ModulePlan {
    pub pool: DatabendPool,
    pub create_database: Statement,
    pub tables: Vec<TablePlan>,
}

/// The values of a list of table plans.
pub open spec fn table_plans_view(s: Seq<TablePlan>) -> Seq<TablePlanView> {
    Seq::new(s.len(), |i: int| s[i]@)
}

/// The statement that creates the database of the tenant `org` where it
/// does not exist. Its failure fails the migration.
pub open spec fn create_database(org: Seq<char>) -> StatementView {
    StatementView { sql: "CREATE DATABASE IF NOT EXISTS "@ + org + ";"@, fatal: true }
}

/// The first parts of the migrations of `tables` for the tenant `org`.
pub open spec fn table_plans(tables: Seq<TableView>, org: Seq<char>) -> Seq<TablePlanView> {
    Seq::new(tables.len(), |i: int| plan(tables[i], org))
}

/// The tables that were read, in order: each `Some` of `read`.
pub open spec fn kept(read: Seq<Option<TableDDL>>, n: nat) -> Seq<TableView>
    decreases n,
{
    if n == 0 || n > read.len() {
        Seq::empty()
    } else {
        match read[n - 1] {
            Some(t) => kept(read, (n - 1) as nat).push(t@),
            None => kept(read, (n - 1) as nat),
        }
    }
}

/// Whether an export declares a table.
pub open spec fn is_table_ddl(e: ExportView) -> bool {
    e.kind is Function && "table_ddl_"@.is_prefix_of(e.name)
}

/// What the table exports among the first `n` exports returned, in order.
pub open spec fn ddl_returns(exports: Seq<ExportView>, n: nat) -> Seq<Option<Seq<char>>>
    decreases n,
{
    if n == 0 || n > exports.len() {
        Seq::empty()
    } else if is_table_ddl(exports[n - 1]) {
        ddl_returns(exports, (n - 1) as nat).push(exports[n - 1].returned)
    } else {
        ddl_returns(exports, (n - 1) as nat)
    }
}

/// The address and the name of the database of a module of the tenant
/// `org`.
///
/// Where the module exports the function `settings_db_conn`, its settings
/// decide: `url` is the address, and `db_name` the database where it is
/// given and not null, else the tenant's name. Otherwise the address is the
/// host's template `env_url` with the tenant's name in place of `{{org}}`,
/// and the database has the tenant's name.
pub open spec fn db_conn(exports: Seq<ExportView>, org: Seq<char>, env_url: Option<Seq<char>>)
    -> Result<(Seq<char>, Seq<char>), DbConnError> {
    let at = find_export(exports, "settings_db_conn"@, ExternKind::Function, 0);
    if 0 <= at < exports.len() {
        match exports[at].returned {
            None => Err(DbConnError::Invocation),
            Some(text) => match json_parse(text) {
                None => Err(DbConnError::InvalidSettings),
                Some(settings) => match settings.get("url"@) {
                    Some(JsonView::String(url)) => match settings.get("db_name"@) {
                        Some(JsonView::String(db)) => Ok((url, db)),
                        Some(JsonView::Null) => Ok((url, org)),
                        None => Ok((url, org)),
                        _ => Err(DbConnError::InvalidSettings),
                    },
                    _ => Err(DbConnError::InvalidSettings),
                },
            },
        }
    } else {
        match env_url {
            Some(template) => Ok((spec_replace(template, "{{org}}"@, org), org)),
            None => Err(DbConnError::NoUrl),
        }
    }
}

/// Whether `p` is the migration of the module `m` for the tenant `org`: run
/// on the module's pool, it creates the tenant's database and then
/// migrates each table, in order.
pub open spec fn plans_module(p: ModulePlan, m: SqlModule, org: Seq<char>) -> bool {
    &&& m.pool matches Some(pool) && p.pool.conn_str@ == pool.conn_str@ && p.pool.db_name@
        == pool.db_name@
    &&& p.create_database@ == create_database(org)
    &&& table_plans_view(p.tables@) == table_plans(tables_view(m.tables@), org)
}

impl SqlModule {
    /// Plans the migration of the module for the tenant `org`: the
    /// tenant's database is created first, then each table is migrated, in
    /// order. Without a pool there is nothing to run the migration on.
    pub fn migrate(&self, org: &str) -> (r: Result<ModulePlan, MigrationError>)
        ensures
            match r {
                Ok(p) => plans_module(p, *self, org@),
                Err(e) => self.pool is None && e@ == MigrationErrorView::NoPool,
            },
    {
        let pool = match &self.pool {
            Some(pool) => pool.copy(),
            None => {
                return Err(MigrationError::NoPool);
            },
        };
        let mut sql = copy_str("CREATE DATABASE IF NOT EXISTS ");
        sql.append(org);
        sql.append(";");
        let mut tables: Vec<TablePlan> = Vec::new();
        let mut i: usize = 0;
        while i < self.tables.len()
            invariant
                i <= self.tables@.len(),
                tables@.len() == i,
                forall|k: int| 0 <= k < i ==> (#[trigger] tables@[k])@ == plan(self.tables@[k]@, org@),
            decreases self.tables@.len() - i,
        {
            tables.push(migrate_table(&self.tables[i], org));
            i += 1;
        }
        proof {
            assert(table_plans_view(tables@) =~= table_plans(tables_view(self.tables@), org@));
        }
        Ok(ModulePlan { pool, create_database: Statement { sql, fatal: true }, tables })
    }
}

/// The table definitions and pools of all modules of a tenant.
#[derive(Debug, PartialEq, Eq)]
pub struct Sql {
    pub modules: Vec<SqlModule>,
}

impl Sql {
    /// No module yet.
    pub fn new() -> (r: Sql)
        ensures
            r.modules@.len() == 0,
    {
        Sql { modules: Vec::new() }
    }

    /// The pool of the database of a module of the tenant `org`; `env_url`
    /// is the host's address template, if it has one.
    pub fn load_db_conn(instance: &Exports, org: &str, env_url: Option<&str>) -> (r: Result<
        DatabendPool,
        DbConnError,
    >)
        ensures
            match r {
                Ok(pool) => db_conn(
                    instance@,
                    org@,
                    match env_url {
                        Some(t) => Some(t@),
                        None => None,
                    },
                ) == Ok::<(Seq<char>, Seq<char>), DbConnError>((pool.conn_str@, pool.db_name@)),
                Err(e) => db_conn(
                    instance@,
                    org@,
                    match env_url {
                        Some(t) => Some(t@),
                        None => None,
                    },
                ) == Err::<(Seq<char>, Seq<char>), DbConnError>(e),
            },
    {
        let (url, db) = match instance.find("settings_db_conn", ExternKind::Function) {
            Some(at) => {
                let export = &instance.items[at];
                assert(instance@[at as int] == export@);
                let text = match &export.returned {
                    Some(text) => text,
                    None => {
                        return Err(DbConnError::Invocation);
                    },
                };
                let settings = match Json::parse(text.as_str()) {
                    Some(settings) => settings,
                    None => {
                        return Err(DbConnError::InvalidSettings);
                    },
                };
                let url = match settings.get("url") {
                    Some(Json::String(url)) => copy_str(url.as_str()),
                    _ => {
                        return Err(DbConnError::InvalidSettings);
                    },
                };
                let db = match settings.get("db_name") {
                    Some(Json::String(db)) => copy_str(db.as_str()),
                    Some(Json::Null) => copy_str(org),
                    None => copy_str(org),
                    _ => {
                        return Err(DbConnError::InvalidSettings);
                    },
                };
                (url, db)
            },
            None => match env_url {
                Some(template) => (replace(template, "{{org}}", org), copy_str(org)),
                None => {
                    return Err(DbConnError::NoUrl);
                },
            },
        };
        match Databend::init(DatabendConnParams::new(url, db)) {
            Ok(pool) => Ok(pool),
            Err(_) => Err(DbConnError::InvalidSettings),
        }
    }

    /// What the table exports of a module returned, in the order of the
    /// exports: the texts to read as table definitions.
    pub fn ddl_texts(instance: &Exports) -> (r: Vec<Option<String>>)
        ensures
            r@.len() == ddl_returns(instance@, instance@.len()).len(),
            forall|i: int|
                0 <= i < r@.len() ==> match #[trigger] r@[i] {
                    Some(t) => ddl_returns(instance@, instance@.len())[i] == Some(t@),
                    None => ddl_returns(instance@, instance@.len())[i] is None,
                },
    {
        let mut out: Vec<Option<String>> = Vec::new();
        let mut i: usize = 0;
        while i < instance.items.len()
            invariant
                i <= instance.items@.len(),
                instance@.len() == instance.items@.len(),
                out@.len() == ddl_returns(instance@, i as nat).len(),
                forall|k: int|
                    0 <= k < out@.len() ==> match #[trigger] out@[k] {
                        Some(t) => ddl_returns(instance@, i as nat)[k] == Some(t@),
                        None => ddl_returns(instance@, i as nat)[k] is None,
                    },
            decreases instance.items@.len() - i,
        {
            let export = &instance.items[i];
            assert(instance@[i as int] == export@);
            let is_function = match export.kind {
                ExternKind::Function => true,
                _ => false,
            };
            if is_function && starts_with(export.name.as_str(), "table_ddl_") {
                let text = match &export.returned {
                    Some(t) => Some(copy_str(t.as_str())),
                    None => None,
                };
                out.push(text);
            }
            i += 1;
        }
        out
    }

    /// The module of the tenant `org` that declares the tables read from
    /// its table exports. A definition that could not be read is `None`
    /// and is left out. The module has a pool where its database can be
    /// told.
    pub fn load_ddl(
        instance: &Exports,
        read: Vec<Option<TableDDL>>,
        org: &str,
        env_url: Option<&str>,
    ) -> (r: SqlModule)
        ensures
            r@ == declared_module(
                instance@,
                read@,
                org@,
                match env_url {
                    Some(t) => Some(t@),
                    None => None,
                },
            ),
    {
        let mut tables: Vec<TableDDL> = Vec::new();
        let ghost all = read@;
        proof {
            assert(tables_view(tables@) =~= kept(all, 0));
        }
        for item in it: read
            invariant
                it.seq() == all,
                tables_view(tables@) == kept(all, it.index() as nat),
        {
            let ghost before = tables_view(tables@);
            match item {
                Some(t) => {
                    let ghost tv = t@;
                    tables.push(t);
                    proof {
                        assert(tables_view(tables@) =~= before.push(tv));
                    }
                },
                None => {},
            }
        }
        let pool = match Sql::load_db_conn(instance, org, env_url) {
            Ok(pool) => Some(pool),
            Err(_) => None,
        };
        SqlModule { tables, pool }
    }

    /// Plans the migration of all modules for the tenant `org`, module by
    /// module: the plans of the modules that have a pool, up to the first
    /// one that has none, and whether the migration ends there in failure.
    pub fn migrate(&self, org: &str) -> (r: (Vec<ModulePlan>, Result<(), MigrationError>))
        ensures
            r.1 is Ok ==> r.0@.len() == self.modules@.len(),
            r.1 matches Err(e) ==> e@ == MigrationErrorView::NoPool && r.0@.len()
                < self.modules@.len() && self.modules@[r.0@.len() as int].pool is None,
            forall|k: int|
                0 <= k < r.0@.len() ==> plans_module(#[trigger] r.0@[k], self.modules@[k], org@),
    {
        let mut plans: Vec<ModulePlan> = Vec::new();
        let mut i: usize = 0;
        while i < self.modules.len()
            invariant
                i <= self.modules@.len(),
                plans@.len() == i,
                forall|k: int|
                    0 <= k < plans@.len() ==> plans_module(
                        #[trigger] plans@[k],
                        self.modules@[k],
                        org@,
                    ),
            decreases self.modules@.len() - i,
        {
            match self.modules[i].migrate(org) {
                Ok(p) => {
                    plans.push(p);
                },
                Err(e) => {
                    return (plans, Err(e));
                },
            }
            i += 1;
        }
        (plans, Ok(()))
    }
}

} // verus!
