//! Column filtering for the translation dump.
//!
//! The dump aggregates the public columns of selected tables into one JSON
//! document; the internal columns — id and the two timestamps — never leave
//! the database. The application reads rows as name/value pairs, filters
//! them here, and serializes what remains.

use vstd::prelude::*;

use crate::text::str_eq;

verus! {

/// The body of the health-check endpoint.
pub fn health_message() -> (msg: &'static str)
    ensures
        msg@ == "Simple CRUD API with Rust, SQLX, Postgres,and Axum"@,
{
    "Simple CRUD API with Rust, SQLX, Postgres,and Axum"
}

/// One column of a row, as the dump sees it.
#[derive(Debug)]
pub struct ColumnValue {
    pub name: String,
    pub value: String,
}

/// Columns the dump leaves out.
pub open spec fn excluded_column(name: Seq<char>) -> bool {
    name == "id"@ || name == "created_at"@ || name == "updated_at"@
}

/// Checks `excluded_column` on a column name.
pub fn is_excluded_column(name: &str) -> (r: bool)
    ensures
        r == excluded_column(name@),
{
    str_eq(name, "id") || str_eq(name, "created_at") || str_eq(name, "updated_at")
}

/// The columns of a row that the dump may publish, in order.
pub open spec fn public_row(row: Seq<ColumnValue>) -> Seq<ColumnValue> {
    row.filter(|c: ColumnValue| !excluded_column(c.name@))
}

/// Keeps exactly the columns the dump may publish, in order.
pub fn public_columns(row: Vec<ColumnValue>) -> (r: Vec<ColumnValue>)
    ensures
        r@ == public_row(row@),
{
    let mut out: Vec<ColumnValue> = Vec::new();
    let mut i: usize = 0;
    proof {
        reveal(Seq::filter);
    }
    while i < row.len()
        invariant
            0 <= i <= row@.len(),
            out@ == public_row(row@.subrange(0, i as int)),
        decreases row@.len() - i,
    {
        let ghost prefix = row@.subrange(0, i as int);
        let c = ColumnValue { name: row[i].name.clone(), value: row[i].value.clone() };
        proof {
            reveal(Seq::filter);
            assert(c == row@[i as int]);
            assert(row@.subrange(0, i + 1) =~= prefix.push(row@[i as int]));
            assert(prefix.push(row@[i as int]).drop_last() =~= prefix);
        }
        if !is_excluded_column(c.name.as_str()) {
            out.push(c);
        }
        i += 1;
    }
    proof {
        reveal(Seq::filter);
        assert(row@.subrange(0, row@.len() as int) =~= row@);
    }
    out
}

} // verus!
