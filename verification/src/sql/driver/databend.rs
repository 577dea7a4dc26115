//! The parameters and the pool of the Databend driver.

use vstd::prelude::*;
use crate::sql::driver::model::ConnParams;
use crate::sql::driver::model::DbError;
use crate::sql::driver::model::DB;
use crate::json::Json;
use crate::json::JsonView;
use crate::json::json_views;
use crate::text::copy_str;
use crate::text::strings_view;

verus! {

/// What the driver needs to reach a tenant's database.
pub struct DatabendConnParams {
    conn_str: String,
    db_name: String,
}

impl DatabendConnParams {
    /// The parameters for the connection string `conn_str` and the database
    /// `db_name`.
    pub fn new(conn_str: String, db_name: String) -> (r: Self)
        ensures
            r.conn_str()@ == conn_str@,
            r.db_name()@ == db_name@,
    {
        Self { conn_str, db_name }
    }

    /// The connection string.
    pub closed spec fn conn_str(&self) -> String {
        self.conn_str
    }

    /// The name of the database.
    pub closed spec fn db_name(&self) -> String {
        self.db_name
    }
}

impl ConnParams for DatabendConnParams {

}

/// The source of a tenant's connections: each connection is opened from
/// the connection string when it is asked for.
#[derive(Clone, Debug, PartialEq, Eq)]
pub struct DatabendPool {
    pub conn_str: String,
    pub db_name: String,
}

impl DatabendPool {
    /// A copy of the pool.
    pub fn copy(&self) -> (r: DatabendPool)
        ensures
            r.conn_str@ == self.conn_str@,
            r.db_name@ == self.db_name@,
    {
        DatabendPool {
            conn_str: copy_str(self.conn_str.as_str()),
            db_name: copy_str(self.db_name.as_str()),
        }
    }
}

/// The Databend driver.
pub struct Databend {}

impl DB for Databend {
    type ParamsType = DatabendConnParams;

    type PoolType = DatabendPool;

    /// The driver takes every connection string and every database name.
    open spec fn accepts(params: DatabendConnParams) -> bool {
        true
    }

    closed spec fn pool_of(params: DatabendConnParams) -> DatabendPool {
        DatabendPool { conn_str: params.conn_str, db_name: params.db_name }
    }

    /// The pool for the given parameters, which the driver always takes:
    /// it has their connection string and their database. No connection is
    /// opened yet.
    fn init(params: DatabendConnParams) -> (r: Result<DatabendPool, DbError>)
        ensures
            r matches Ok(pool) && pool.conn_str@ == params.conn_str()@ && pool.db_name@
                == params.db_name()@,
    {
        Ok(DatabendPool { conn_str: params.conn_str, db_name: params.db_name })
    }
}

/// A row as an object: each of the selected columns with the value at its
/// position, as far as the row has values and the selection has columns.
pub open spec fn row_object(cols: Seq<Seq<char>>, row: Seq<JsonView>) -> JsonView {
    JsonView::Object(
        Seq::new(
            if cols.len() <= row.len() {
                cols.len()
            } else {
                row.len()
            },
            |i: int| (cols[i], row[i]),
        ),
    )
}

/// Shapes a row of a selection as an object that maps the selected columns
/// to the row's values.
pub fn select_row(cols: &Vec<String>, row: Vec<Json>) -> (r: Json)
    ensures
        r@ == row_object(strings_view(cols@), json_views(row@)),
{
    {
        let ghost values = row@;
        let mut entries: Vec<(String, Json)> = Vec::new();
        let mut i: usize = 0;
        for value in it: row
            invariant
                it.seq() == values,
                i == (if it.index() <= cols@.len() {
                    it.index()
                } else {
                    cols@.len() as int
                }),
                entries@.len() == i,
                forall|k: int|
                    0 <= k < entries@.len() ==> (#[trigger] entries@[k]).0@ == cols@[k]@
                        && entries@[k].1@ == values[k]@,
        {
            if i < cols.len() {
                entries.push((copy_str(cols[i].as_str()), value));
                i += 1;
            }
        }
        let r = Json::object(entries);
        proof {
            assert(r@->Object_0 =~= row_object(
                strings_view(cols@),
                json_views(values),
            )->Object_0);
        }
        r
    }
}

} // verus!
