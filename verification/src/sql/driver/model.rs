//! Table definitions and the rendering of their parts as SQL text.

use vstd::prelude::*;
use crate::text::chars_of;
use crate::text::copy_str;
use crate::text::decimal;
use crate::text::decimal_of;
use crate::text::push_char;

verus! {

/// Marks the parameters with which a driver opens its connections.
pub trait ConnParams {

}

/// A driver refuses its parameters.
#[derive(Debug, PartialEq, Eq)]
pub struct DbError {
    pub message: String,
}

/// A database driver: from its parameters it makes the pool that its
/// connections come from.
pub trait DB {
    type ParamsType: ConnParams;

    type PoolType;

    /// Whether the driver takes `params`.
    spec fn accepts(params: Self::ParamsType) -> bool;

    /// The pool that `params` stand for, as the driver makes it.
    spec fn pool_of(params: Self::ParamsType) -> Self::PoolType;

    /// Makes the pool for the given parameters, where the driver takes
    /// them. No connection is opened yet.
    fn init(params: Self::ParamsType) -> (r: Result<Self::PoolType, DbError>)
        ensures
            r is Ok == Self::accepts(params),
            r matches Ok(pool) ==> pool == Self::pool_of(params),
    ;
}

/// What to do with a table.
#[derive(Debug, Clone, Copy, PartialEq, Eq, Structural)]
pub enum TableDDLOp {
    /// Create the table, or bring an existing one to the declared columns.
    CreateOrAlter,
    /// Drop the table.
    Drop,
    /// Drop the table and purge its history.
    DropAll,
    /// Bring a dropped table back, then reconcile it as `CreateOrAlter` does.
    Undrop,
}

/// What to do with a column before it is reconciled.
#[derive(Debug, PartialEq, Eq)]
pub enum DDLOp {
    /// Nothing.
    Keep,
    /// The column had the name given.
    Rename(String),
}

/// The mathematical value of a `DDLOp`.
pub enum DDLOpView {
    Keep,
    Rename(Seq<char>),
}

impl View for DDLOp {
    type V = DDLOpView;

    open spec fn view(&self) -> DDLOpView {
        match self {
            DDLOp::Keep => DDLOpView::Keep,
            DDLOp::Rename(old) => DDLOpView::Rename(old@),
        }
    }
}

/// A value that a column may default to. A number with a fraction is kept
/// as its decimal text.
#[derive(Debug, PartialEq, Eq)]
pub enum SqlValue {
    Null,
    Bool(bool),
    Int(i64),
    Decimal(String),
    Text(String),
}

/// The mathematical value of an `SqlValue`.
pub enum SqlValueView {
    Null,
    Bool(bool),
    Int(int),
    Decimal(Seq<char>),
    Text(Seq<char>),
}

impl View for SqlValue {
    type V = SqlValueView;

    open spec fn view(&self) -> SqlValueView {
        match self {
            SqlValue::Null => SqlValueView::Null,
            SqlValue::Bool(b) => SqlValueView::Bool(*b),
            SqlValue::Int(n) => SqlValueView::Int(*n as int),
            SqlValue::Decimal(d) => SqlValueView::Decimal(d@),
            SqlValue::Text(s) => SqlValueView::Text(s@),
        }
    }
}

/// A declared column.
#[derive(Debug, PartialEq, Eq)]
pub struct ColumnDDL {
    pub name: String,
    /// The column's type, handed to the database as it is.
    pub ty: String,
    /// Whether the column admits null.
    pub opt: bool,
    pub default: Option<SqlValue>,
    pub op: DDLOp,
}

/// The mathematical value of a `ColumnDDL`.
pub struct ColumnView {
    pub name: Seq<char>,
    pub ty: Seq<char>,
    pub opt: bool,
    pub default: Option<SqlValueView>,
    pub op: DDLOpView,
}

impl View for ColumnDDL {
    type V = ColumnView;

    open spec fn view(&self) -> ColumnView {
        ColumnView {
            name: self.name@,
            ty: self.ty@,
            opt: self.opt,
            default: match self.default {
                Some(v) => Some(v@),
                None => None,
            },
            op: self.op@,
        }
    }
}

/// A declared table.
#[derive(Debug, PartialEq, Eq)]
pub struct TableDDL {
    pub name: String,
    pub op: TableDDLOp,
    pub cols: Vec<ColumnDDL>,
}

/// The mathematical value of a `TableDDL`.
pub struct TableView {
    pub name: Seq<char>,
    pub op: TableDDLOp,
    pub cols: Seq<ColumnView>,
}

impl View for TableDDL {
    type V = TableView;

    open spec fn view(&self) -> TableView {
        TableView {
            name: self.name@,
            op: self.op,
            cols: Seq::new(self.cols@.len(), |i: int| self.cols@[i]@),
        }
    }
}

/// The text `s` with a backslash put before each single quote.
pub open spec fn escape_quotes(s: Seq<char>) -> Seq<char>
    decreases s.len(),
{
    if s.len() == 0 {
        s
    } else if s.last() == '\'' {
        escape_quotes(s.drop_last()).push('\\').push('\'')
    } else {
        escape_quotes(s.drop_last()).push(s.last())
    }
}

/// The SQL text of a value: `NULL`; `TRUE` or `FALSE`; an integer in
/// decimal; a number with a fraction by its decimal text; a text between
/// single quotes, with its own single quotes escaped.
pub open spec fn render_value(v: SqlValueView) -> Seq<char> {
    match v {
        SqlValueView::Null => "NULL"@,
        SqlValueView::Bool(b) => if b {
            "TRUE"@
        } else {
            "FALSE"@
        },
        SqlValueView::Int(n) => decimal(n),
        SqlValueView::Decimal(d) => d,
        SqlValueView::Text(s) => seq!['\''] + escape_quotes(s) + seq!['\''],
    }
}

/// Renders a value as SQL text.
pub fn sql_render_value(v: &SqlValue) -> (r: String)
    ensures
        r@ == render_value(v@),
{
    match v {
        SqlValue::Null => copy_str("NULL"),
        SqlValue::Bool(b) => if *b {
            copy_str("TRUE")
        } else {
            copy_str("FALSE")
        },
        SqlValue::Int(n) => decimal_of(*n),
        SqlValue::Decimal(d) => copy_str(d.as_str()),
        SqlValue::Text(s) => {
            let chars = chars_of(s.as_str());
            let mut r = String::new();
            push_char(&mut r, '\'');
            let mut i: usize = 0;
            proof {
                assert(chars@.take(0) =~= Seq::empty());
            }
            while i < chars.len()
                invariant
                    i <= chars@.len(),
                    r@ == seq!['\''] + escape_quotes(chars@.take(i as int)),
                decreases chars@.len() - i,
            {
                proof {
                    assert(chars@.take(i + 1).drop_last() =~= chars@.take(i as int));
                }
                if chars[i] == '\'' {
                    push_char(&mut r, '\\');
                    push_char(&mut r, '\'');
                } else {
                    push_char(&mut r, chars[i]);
                }
                i += 1;
            }
            proof {
                assert(chars@.take(chars@.len() as int) =~= chars@);
            }
            push_char(&mut r, '\'');
            r
        },
    }
}

} // verus!
