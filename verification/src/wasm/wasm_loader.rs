//! What the host reads from an instantiated module, and the tenant's load.
//!
//! The engine instantiates a module and runs its functions. What the host's
//! rules need of the result is plain: the names and kinds of the exports,
//! and the text that each descriptive export returned when it was called.
//! `Exports` holds that.

use vstd::prelude::*;
use crate::gql::gql_loader::build;
use crate::gql::gql_loader::load;
use crate::gql::gql_loader::Gql;
use crate::gql::gql_loader::LoaderError;
use crate::gql::gql_loader::LoaderErrorView;
use crate::gql::gql_loader::Schema;
use crate::gql::gql_loader::SchemaError;
use crate::gql::gql_loader::SchemaErrorView;
use crate::gql::gql_loader::SchemaView;
use crate::sql::driver::model::TableDDL;
use crate::sql::sql_loader::declared_module;
use crate::sql::sql_loader::sql_modules_view;
use crate::sql::sql_loader::MigrationError;
use crate::sql::sql_loader::Sql;
use crate::sql::sql_loader::SqlModuleView;
use crate::state::Orgs;
use crate::text::copy_str;
use crate::text::ends_with;
use crate::text::starts_with;
use crate::text::str_eq;
use crate::wasm::guest::call_nullary;
use crate::wasm::guest::export_list;
use crate::wasm::guest::exports_of;
use crate::wasm::guest::is_usable;
use crate::wasm::guest::usable;
use crate::wasm::wasm_helper::str_mem_read;

verus! {

/// The kind of an export.
#[derive(Debug, Clone, Copy, PartialEq, Eq, Structural)]
pub enum ExternKind {
    Function,
    Global,
    Table,
    Memory,
    Tag,
}

/// One export of a module.
#[derive(Debug, PartialEq, Eq)]
pub struct Export {
    pub name: String,
    pub kind: ExternKind,
    /// For a descriptive export that the host called: the text it
    /// returned. `None` where the export was not called or the call failed.
    pub returned: Option<String>,
}

/// The mathematical value of an `Export`.
pub struct ExportView {
    pub name: Seq<char>,
    pub kind: ExternKind,
    pub returned: Option<Seq<char>>,
}

impl View for Export {
    type V = ExportView;

    open spec fn view(&self) -> ExportView {
        ExportView {
            name: self.name@,
            kind: self.kind,
            returned: match self.returned {
                Some(s) => Some(s@),
                None => None,
            },
        }
    }
}

/// An instantiated module, as the host's rules see it: its exports in the
/// order in which the engine lists them.
#[derive(Debug, PartialEq, Eq)]
pub struct Exports {
    pub items: Vec<Export>,
}

impl View for Exports {
    type V = Seq<ExportView>;

    open spec fn view(&self) -> Seq<ExportView> {
        Seq::new(self.items@.len(), |i: int| self.items@[i]@)
    }
}

/// Whether `exports` holds an export `name` of kind `kind`.
pub open spec fn exports_kind(exports: Seq<ExportView>, name: Seq<char>, kind: ExternKind) -> bool {
    exists|i: int| 0 <= i < exports.len() && #[trigger] exports[i].name == name && exports[i].kind == kind
}

/// The position of the first export `name` of kind `kind` at or after `from`,
/// or the number of exports where there is none.
pub open spec fn find_export(
    exports: Seq<ExportView>,
    name: Seq<char>,
    kind: ExternKind,
    from: int,
) -> int
    decreases exports.len() - from,
{
    if from < 0 || from >= exports.len() {
        exports.len() as int
    } else if exports[from].name == name && exports[from].kind == kind {
        from
    } else {
        find_export(exports, name, kind, from + 1)
    }
}

/// Whether a descriptive export is one the host calls when it loads a
/// module: a table definition, the connection settings, or a handler's
/// metadata.
pub open spec fn is_descriptive(name: Seq<char>) -> bool {
    "table_ddl_"@.is_prefix_of(name) || name == "settings_db_conn"@
        || "handler_metadata_"@.is_prefix_of(name)
}

/// Whether a storage entry of the given name holds a module: its name ends
/// in `.wasm` and does not begin with a comma.
pub open spec fn is_module_name(name: Seq<char>) -> bool {
    ".wasm"@.is_suffix_of(name) && !","@.is_prefix_of(name)
}

impl Exports {
    /// Whether the module exports `name` with kind `kind`.
    pub fn has_export(&self, name: &str, kind: ExternKind) -> (r: bool)
        ensures
            r == exports_kind(self@, name@, kind),
    {
        let mut i: usize = 0;
        while i < self.items.len()
            invariant
                i <= self.items@.len(),
                forall|k: int|
                    0 <= k < i ==> !(#[trigger] self@[k].name == name@ && self@[k].kind == kind),
            decreases self.items@.len() - i,
        {
            if self.items[i].kind == kind && str_eq(self.items[i].name.as_str(), name) {
                assert(self@[i as int].name == name@ && self@[i as int].kind == kind);
                return true;
            }
            i += 1;
        }
        false
    }

    /// The first export `name` of kind `kind`.
    pub fn find(&self, name: &str, kind: ExternKind) -> (r: Option<usize>)
        ensures
            match r {
                Some(at) => at < self@.len() && find_export(self@, name@, kind, 0) == at,
                None => find_export(self@, name@, kind, 0) == self@.len(),
            },
    {
        let mut i: usize = 0;
        while i < self.items.len()
            invariant
                i <= self.items@.len(),
                self@.len() == self.items@.len(),
                find_export(self@, name@, kind, 0) == find_export(self@, name@, kind, i as int),
            decreases self.items@.len() - i,
        {
            assert(self@[i as int] == self.items@[i as int]@);
            if self.items[i].kind == kind && str_eq(self.items[i].name.as_str(), name) {
                return Some(i);
            }
            i += 1;
        }
        None
    }

    /// Whether the host calls the export `name` when it loads a module.
    pub fn is_descriptive_export(name: &str) -> (r: bool)
        ensures
            r == is_descriptive(name@),
    {
        starts_with(name, "table_ddl_") || str_eq(name, "settings_db_conn") || starts_with(
            name,
            "handler_metadata_",
        )
    }
}

/// Whether a storage entry of the given name holds a module to load.
pub fn is_module_entry(name: &str) -> (r: bool)
    ensures
        r == is_module_name(name@),
{
    ends_with(name, ".wasm") && !starts_with(name, ",")
}

/// One module of a tenant: the instance, and what was read from each of
/// its table exports, in their order; `None` where an export gave no table
/// definition.
#[derive(Debug, PartialEq, Eq)]
pub struct Module {
    pub exports: Exports,
    pub tables: Vec<Option<TableDDL>>,
}

/// Why a tenant cannot be loaded.
#[derive(Debug, PartialEq, Eq)]
pub enum LoadError {
    /// A module lacks the export named, which every module must have.
    Instantiation(String),
    /// A module's handlers cannot be linked.
    Loader(LoaderError),
    /// The tenant's schema cannot be built.
    Schema(SchemaError),
}

/// The mathematical value of a `LoadError`.
pub enum LoadErrorView {
    Instantiation(Seq<char>),
    Loader(LoaderErrorView),
    Schema(SchemaErrorView),
}

impl View for LoadError {
    type V = LoadErrorView;

    open spec fn view(&self) -> LoadErrorView {
        match self {
            LoadError::Instantiation(n) => LoadErrorView::Instantiation(n@),
            LoadError::Loader(e) => LoadErrorView::Loader(e@),
            LoadError::Schema(e) => LoadErrorView::Schema(e@),
        }
    }
}

/// A tenant that is loaded and not yet installed: its schema, and the
/// table definitions to migrate before it goes live.
#[derive(Debug, PartialEq, Eq)]
pub struct Loaded {
    pub org: String,
    pub gql: Schema,
    pub sql: Sql,
}

/// The export that a module must have and lacks: its memory, or its
/// allocator.
pub open spec fn missing_export(exports: Seq<ExportView>) -> Option<Seq<char>> {
    if !exports_kind(exports, "memory"@, ExternKind::Memory) {
        Some("memory"@)
    } else if !exports_kind(exports, "str_malloc"@, ExternKind::Function) {
        Some("str_malloc"@)
    } else {
        None
    }
}

/// The schema without handlers and types.
pub open spec fn empty_schema() -> SchemaView {
    SchemaView { query: Seq::empty(), input_objects: Seq::empty(), output_objects: Seq::empty() }
}

/// The schema under construction and the table definitions after the
/// first `n` modules of the tenant `org`: each module must export its
/// memory and its allocator, contributes its tables and its pool, and has
/// its handlers linked. The first module that fails decides the error.
pub open spec fn loading(modules: Seq<Module>, org: Seq<char>, env_url: Option<Seq<char>>, n: nat)
    -> Result<(SchemaView, Seq<SqlModuleView>), LoadErrorView>
    decreases n,
{
    if n == 0 || n > modules.len() {
        Ok((empty_schema(), Seq::empty()))
    } else {
        match loading(modules, org, env_url, (n - 1) as nat) {
            Err(e) => Err(e),
            Ok((g, sql)) => {
                let m = modules[n - 1];
                match missing_export(m.exports@) {
                    Some(name) => Err(LoadErrorView::Instantiation(name)),
                    None => match load(g, (n - 1) as nat, m.exports@, m.exports@.len()) {
                        Err(e) => Err(LoadErrorView::Loader(e)),
                        Ok(linked) => Ok(
                            (
                                linked,
                                sql.push(declared_module(m.exports@, m.tables@, org, env_url)),
                            ),
                        ),
                    },
                }
            },
        }
    }
}

/// What loading the tenant `org` from its modules yields: the built
/// schema and the table definitions, or the reason why it cannot be loaded.
pub open spec fn loaded(modules: Seq<Module>, org: Seq<char>, env_url: Option<Seq<char>>)
    -> Result<(SchemaView, Seq<SqlModuleView>), LoadErrorView> {
    match loading(modules, org, env_url, modules.len()) {
        Err(e) => Err(e),
        Ok((g, sql)) => match build(g) {
            Err(e) => Err(LoadErrorView::Schema(e)),
            Ok(schema) => Ok((schema, sql)),
        },
    }
}

/// Once a module has failed to load, the error stays whatever follows.
pub proof fn lemma_loading_error_stays(
    modules: Seq<Module>,
    org: Seq<char>,
    env_url: Option<Seq<char>>,
    k: nat,
    n: nat,
)
    requires
        k <= n <= modules.len(),
        loading(modules, org, env_url, k) is Err,
    ensures
        loading(modules, org, env_url, n) == loading(modules, org, env_url, k),
    decreases n,
{
    if k < n {
        lemma_loading_error_stays(modules, org, env_url, k, (n - 1) as nat);
    }
}

/// A tenant without modules cannot be loaded: its schema has no fields.
pub proof fn lemma_empty_tenant(org: Seq<char>, env_url: Option<Seq<char>>)
    ensures
        loaded(Seq::<Module>::empty(), org, env_url) == Err::<
            (SchemaView, Seq<SqlModuleView>),
            LoadErrorView,
        >(LoadErrorView::Schema(SchemaErrorView::NoFields)),
{
}

/// A tenant with a module that lacks its memory or its allocator cannot
/// be loaded, whatever its other modules are, unless an earlier module
/// fails first.
pub proof fn lemma_missing_export(
    modules: Seq<Module>,
    org: Seq<char>,
    env_url: Option<Seq<char>>,
    at: int,
)
    requires
        0 <= at < modules.len(),
        missing_export(modules[at].exports@) is Some,
    ensures
        loaded(modules, org, env_url) is Err,
        loading(modules, org, env_url, at as nat) is Ok ==> loaded(modules, org, env_url) == Err::<
            (SchemaView, Seq<SqlModuleView>),
            LoadErrorView,
        >(LoadErrorView::Instantiation(missing_export(modules[at].exports@)->0)),
{
    if loading(modules, org, env_url, at as nat) is Ok {
        assert(loading(modules, org, env_url, (at + 1) as nat) is Err);
        lemma_loading_error_stays(modules, org, env_url, (at + 1) as nat, modules.len());
    } else {
        lemma_loading_error_stays(modules, org, env_url, at as nat, modules.len());
    }
}

impl Exports {
    /// The export that every module must have and this one lacks.
    pub fn check_exports(&self) -> (r: Option<String>)
        ensures
            match r {
                Some(name) => missing_export(self@) == Some(name@),
                None => missing_export(self@) is None,
            },
    {
        if !self.has_export("memory", ExternKind::Memory) {
            Some(copy_str("memory"))
        } else if !self.has_export("str_malloc", ExternKind::Function) {
            Some(copy_str("str_malloc"))
        } else {
            None
        }
    }
}

impl Orgs {
    /// Loads the tenant `org` from its modules, in order: links the
    /// handlers, collects the table definitions, and builds the schema. The
    /// registry is not touched; `env_url` is the host's address template
    /// for the tenant's database, if it has one.
    pub fn load_wasm(org: &str, modules: Vec<Module>, env_url: Option<&str>) -> (r: Result<
        Loaded,
        LoadError,
    >)
        ensures
            match r {
                Ok(l) => l.org@ == org@ && loaded(
                    modules@,
                    org@,
                    match env_url {
                        Some(t) => Some(t@),
                        None => None,
                    },
                ) == Ok::<(SchemaView, Seq<SqlModuleView>), LoadErrorView>(
                    (l.gql@, sql_modules_view(l.sql.modules@)),
                ),
                Err(e) => loaded(
                    modules@,
                    org@,
                    match env_url {
                        Some(t) => Some(t@),
                        None => None,
                    },
                ) == Err::<(SchemaView, Seq<SqlModuleView>), LoadErrorView>(e@),
            },
    {
        let ghost all = modules@;
        assert(all.len() == modules.len());
        let ghost env: Option<Seq<char>> = match env_url {
            Some(t) => Some(t@),
            None => None,
        };
        let mut gql = Gql::new();
        let mut sql = Sql::new();
        proof {
            assert(sql_modules_view(sql.modules@) =~= Seq::empty());
        }
        let mut n: usize = 0;
        for m in it: modules
            invariant
                it.seq() == all,
                n == it.index(),
                all.len() <= usize::MAX,
                env == (match env_url {
                    Some(t) => Some(t@),
                    None => None,
                }),
                loading(all, org@, env, it.index() as nat) == Ok::<
                    (SchemaView, Seq<SqlModuleView>),
                    LoadErrorView,
                >((gql@, sql_modules_view(sql.modules@))),
        {
            let ghost before = sql_modules_view(sql.modules@);
            let Module { exports: instance, tables } = m;
            match instance.check_exports() {
                Some(name) => {
                    proof {
                        lemma_loading_error_stays(all, org@, env, (n + 1) as nat, all.len());
                    }
                    return Err(LoadError::Instantiation(name));
                },
                None => {},
            }
            let declared = Sql::load_ddl(&instance, tables, org, env_url);
            let ghost dv = declared@;
            match gql.load_handlers(n, &instance) {
                Ok(linked) => {
                    gql = linked;
                },
                Err(e) => {
                    proof {
                        lemma_loading_error_stays(all, org@, env, (n + 1) as nat, all.len());
                    }
                    return Err(LoadError::Loader(e));
                },
            }
            sql.modules.push(declared);
            proof {
                assert(sql_modules_view(sql.modules@) =~= before.push(dv));
            }
            n += 1;
        }
        match gql.build_schema() {
            Ok(schema) => Ok(Loaded { org: copy_str(org), gql: schema, sql }),
            Err(e) => Err(LoadError::Schema(e)),
        }
    }

    /// Ends a reload: where the migration succeeded, the loaded schema is
    /// installed for its tenant; where it failed, the registry stays as it
    /// is and the failure is handed on.
    pub fn finish_reload(&mut self, loaded: Loaded, migrated: Result<(), MigrationError>) -> (r:
        Result<(), MigrationError>)
        requires
            old(self).wf(),
        ensures
            final(self).wf(),
            final(self).storage_of() == old(self).storage_of(),
            match r {
                Ok(()) => migrated is Ok && final(self)@ == old(self)@.insert(
                    loaded.org@,
                    loaded.gql@,
                ),
                Err(e) => migrated == Err::<(), MigrationError>(e) && final(self)@ == old(self)@,
            },
    {
        match migrated {
            Ok(()) => {
                self.install(loaded.org, loaded.gql);
                Ok(())
            },
            Err(e) => Err(e),
        }
    }
}

/// Whether `e` is the export `listed` as the host has described it: of
/// that name and kind, and called only if it is a descriptive function.
pub open spec fn describes(e: ExportView, listed: (Seq<char>, ExternKind)) -> bool {
    &&& e.name == listed.0
    &&& e.kind == listed.1
    &&& e.returned is Some ==> e.kind is Function && is_descriptive(e.name)
}

impl Exports {
    /// Describes a guest: lists its exports, in the engine's order, and
    /// calls each descriptive function among them for the text it returns.
    /// An export whose call fails, or returns an address outside the guest's
    /// memory, is listed without a text; so is every export of a guest that
    /// does not live in the store.
    pub fn probe(store: &mut wasmer::Store, guest: &wasmer::Instance) -> (r: Exports)
        ensures
            usable(*final(store), *guest) == usable(*old(store), *guest),
            r@.len() == exports_of(*guest).len(),
            forall|i: int| 0 <= i < r@.len() ==> describes(#[trigger] r@[i], exports_of(*guest)[i]),
            !usable(*old(store), *guest) ==> forall|i: int|
                0 <= i < r@.len() ==> (#[trigger] r@[i]).returned is None,
    {
        let listed = export_list(guest);
        let reachable = is_usable(store, guest);
        let ghost all = exports_of(*guest);
        let mut items: Vec<Export> = Vec::new();
        for entry in it: listed
            invariant
                exports_of(*guest) == all,
                reachable == usable(*store, *guest),
                usable(*store, *guest) == usable(*old(store), *guest),
                !reachable ==> forall|i: int|
                    0 <= i < items@.len() ==> (#[trigger] items@[i])@.returned is None,
                it.seq().len() == all.len(),
                forall|i: int|
                    0 <= i < all.len() ==> ((#[trigger] it.seq()[i]).0@, it.seq()[i].1) == all[i],
                items@.len() == it.index(),
                forall|i: int| 0 <= i < items@.len() ==> describes((#[trigger] items@[i])@, all[i]),
        {
            let (name, kind) = entry;
            let is_function = match kind {
                ExternKind::Function => true,
                _ => false,
            };
            let returned = if reachable && is_function && Exports::is_descriptive_export(
                name.as_str(),
            ) {
                match call_nullary(store, guest, name.as_str()) {
                    Ok(ptr) => match str_mem_read(store, guest, ptr as usize) {
                        Ok(text) => Some(text),
                        Err(_) => None,
                    },
                    Err(_) => None,
                }
            } else {
                None
            };
            items.push(Export { name, kind, returned });
        }
        Exports { items }
    }
}

} // verus!
