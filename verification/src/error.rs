//! The kinds of failure of the host, and what each failure says.
//!
//! Each part of the host has its own error type. What they have in common
//! is the kind of failure they stand for, which decides how a failure is
//! handled: a loader failure ends the reload of its tenant and leaves the
//! tenant's schema as it was, a failure of a call is answered to the caller
//! of the query, a failure of a data call is answered to the guest.

use vstd::prelude::*;
use crate::gql::gql_helper::MetadataError;
use crate::gql::gql_helper::MetadataErrorView;
use crate::gql::gql_loader::LoaderError;
use crate::gql::gql_loader::LoaderErrorView;
use crate::gql::gql_loader::SchemaError;
use crate::gql::gql_loader::SchemaErrorView;
use crate::json::json_text;
use crate::sql::sql_loader::MigrationError;
use crate::state::TenantNotFound;
use crate::text::copy_str;
use crate::wasm::wasm_helper::AbiError;
use crate::wasm::wasm_loader::LoadError;
use crate::wasm::wasm_loader::LoadErrorView;

verus! {

/// The kind of a failure.
#[derive(Debug, Clone, Copy, PartialEq, Eq, Structural)]
pub enum ErrorKind {
    /// A type descriptor names an unknown scalar or container, or is
    /// malformed.
    LoaderInvalidMetadata,
    /// A module cannot be compiled or instantiated, or lacks an export that
    /// it must have.
    LoaderInstantiation,
    /// A guest function is missing or traps, or what it returns cannot be
    /// read.
    AbiInvocation,
    /// The schema of a tenant cannot be built.
    SchemaBuild,
    /// The database, or the statement that creates it or a table, fails.
    MigrationFailure,
    /// A data call of a guest fails; the guest is told so in the answer.
    DataPlaneFailure,
    /// A request names a tenant that the registry does not hold.
    TenantNotFound,
}

/// The kind of a loader's failure.
pub open spec fn loader_kind(e: LoaderErrorView) -> ErrorKind {
    match e {
        LoaderErrorView::InvalidMetadata(_) => ErrorKind::LoaderInvalidMetadata,
        LoaderErrorView::MissingExport(_) => ErrorKind::LoaderInstantiation,
        LoaderErrorView::Invocation(_) => ErrorKind::AbiInvocation,
    }
}

/// The kind of a load's failure.
pub open spec fn load_kind(e: LoadErrorView) -> ErrorKind {
    match e {
        LoadErrorView::Instantiation(_) => ErrorKind::LoaderInstantiation,
        LoadErrorView::Loader(e) => loader_kind(e),
        LoadErrorView::Schema(_) => ErrorKind::SchemaBuild,
    }
}

/// What a descriptor's failure says.
pub open spec fn metadata_message(e: MetadataErrorView) -> Seq<char> {
    match e {
        MetadataErrorView::InvalidType(d) => "invalid metadata type: "@ + json_text(d),
        MetadataErrorView::InvalidContent => "invalid metadata content"@,
    }
}

/// What a schema's failure says.
pub open spec fn schema_message(e: SchemaErrorView) -> Seq<char> {
    match e {
        SchemaErrorView::NoFields => "no fields"@,
        SchemaErrorView::DuplicateType(name) => "duplicate type: "@ + name,
        SchemaErrorView::UnknownType(name) => "unknown type: "@ + name,
    }
}

/// What a loader's failure says.
pub open spec fn loader_message(e: LoaderErrorView) -> Seq<char> {
    match e {
        LoaderErrorView::InvalidMetadata(e) => metadata_message(e),
        LoaderErrorView::MissingExport(name) => "missing export: "@ + name,
        LoaderErrorView::Invocation(name) => "invocation failed: "@ + name,
    }
}

/// What a load's failure says.
pub open spec fn load_message(e: LoadErrorView) -> Seq<char> {
    match e {
        LoadErrorView::Instantiation(name) => "missing export: "@ + name,
        LoadErrorView::Loader(e) => loader_message(e),
        LoadErrorView::Schema(e) => schema_message(e),
    }
}

impl MetadataError {
    /// The kind of the failure.
    pub fn kind(&self) -> (r: ErrorKind)
        ensures
            r == ErrorKind::LoaderInvalidMetadata,
    {
        ErrorKind::LoaderInvalidMetadata
    }

    /// What the failure says: an invalid type with the descriptor that has
    /// it, or an invalid content.
    pub fn message(&self) -> (r: String)
        ensures
            r@ == metadata_message(self@),
    {
        match self {
            MetadataError::InvalidType(d) => {
                let mut r = copy_str("invalid metadata type: ");
                let text = d.render();
                r.append(text.as_str());
                r
            },
            MetadataError::InvalidContent => copy_str("invalid metadata content"),
        }
    }
}

impl SchemaError {
    /// The kind of the failure.
    pub fn kind(&self) -> (r: ErrorKind)
        ensures
            r == ErrorKind::SchemaBuild,
    {
        ErrorKind::SchemaBuild
    }

    /// What the failure says.
    pub fn message(&self) -> (r: String)
        ensures
            r@ == schema_message(self@),
    {
        match self {
            SchemaError::NoFields => copy_str("no fields"),
            SchemaError::DuplicateType(name) => {
                let mut r = copy_str("duplicate type: ");
                r.append(name.as_str());
                r
            },
            SchemaError::UnknownType(name) => {
                let mut r = copy_str("unknown type: ");
                r.append(name.as_str());
                r
            },
        }
    }
}

impl LoaderError {
    /// The kind of the failure: an invalid descriptor is invalid metadata,
    /// a missing export fails the instantiation, and a descriptive export
    /// that could not be called or read fails the invocation.
    pub fn kind(&self) -> (r: ErrorKind)
        ensures
            r == loader_kind(self@),
    {
        match self {
            LoaderError::InvalidMetadata(_) => ErrorKind::LoaderInvalidMetadata,
            LoaderError::MissingExport(_) => ErrorKind::LoaderInstantiation,
            LoaderError::Invocation(_) => ErrorKind::AbiInvocation,
        }
    }

    /// What the failure says.
    pub fn message(&self) -> (r: String)
        ensures
            r@ == loader_message(self@),
    {
        match self {
            LoaderError::InvalidMetadata(e) => e.message(),
            LoaderError::MissingExport(name) => {
                let mut r = copy_str("missing export: ");
                r.append(name.as_str());
                r
            },
            LoaderError::Invocation(name) => {
                let mut r = copy_str("invocation failed: ");
                r.append(name.as_str());
                r
            },
        }
    }
}

impl LoadError {
    /// The kind of the failure.
    pub fn kind(&self) -> (r: ErrorKind)
        ensures
            r == load_kind(self@),
    {
        match self {
            LoadError::Instantiation(_) => ErrorKind::LoaderInstantiation,
            LoadError::Loader(e) => e.kind(),
            LoadError::Schema(_) => ErrorKind::SchemaBuild,
        }
    }

    /// What the failure says.
    pub fn message(&self) -> (r: String)
        ensures
            r@ == load_message(self@),
    {
        match self {
            LoadError::Instantiation(name) => {
                let mut r = copy_str("missing export: ");
                r.append(name.as_str());
                r
            },
            LoadError::Loader(e) => e.message(),
            LoadError::Schema(e) => e.message(),
        }
    }
}

impl AbiError {
    /// The kind of the failure.
    pub fn kind(&self) -> (r: ErrorKind)
        ensures
            r == ErrorKind::AbiInvocation,
    {
        ErrorKind::AbiInvocation
    }
}

impl MigrationError {
    /// The kind of the failure.
    pub fn kind(&self) -> (r: ErrorKind)
        ensures
            r == ErrorKind::MigrationFailure,
    {
        ErrorKind::MigrationFailure
    }
}

impl TenantNotFound {
    /// The kind of the failure.
    pub fn kind(&self) -> (r: ErrorKind)
        ensures
            r == ErrorKind::TenantNotFound,
    {
        ErrorKind::TenantNotFound
    }
}

} // verus!
