//! Reading PostgreSQL query results into script values: the Postgres type
//! of a column decides how its cells are read.
use vstd::prelude::*;

use crate::text::str_eq;

verus! {

/// How a non-null cell is read.
#[derive(Clone, Copy, Debug, PartialEq, Eq, Structural)]
pub enum CellKind {
    /// A 16-bit integer, widened to 64 bits.
    Int16,
    /// A 32-bit integer, widened to 64 bits.
    Int32,
    Int64,
    /// A 32-bit float, widened to 64 bits.
    Float32,
    Float64,
    Bool,
    /// Anything else, read as text.
    Text,
}

/// The reading of a column of Postgres type `t`.
pub open spec fn cell_kind_of(t: Seq<char>) -> CellKind {
    if t == "INT2"@ || t == "SMALLINT"@ || t == "SMALLSERIAL"@ {
        CellKind::Int16
    } else if t == "INT4"@ || t == "INT"@ || t == "SERIAL"@ {
        CellKind::Int32
    } else if t == "INT8"@ || t == "BIGINT"@ || t == "BIGSERIAL"@ {
        CellKind::Int64
    } else if t == "FLOAT4"@ || t == "REAL"@ {
        CellKind::Float32
    } else if t == "FLOAT8"@ || t == "DOUBLE PRECISION"@ {
        CellKind::Float64
    } else if t == "BOOL"@ || t == "BOOLEAN"@ {
        CellKind::Bool
    } else {
        CellKind::Text
    }
}

/// The reading of a column of Postgres type `pg_type` (see
/// [`cell_kind_of`]).
pub fn cell_kind(pg_type: &str) -> (k: CellKind)
    ensures
        k == cell_kind_of(pg_type@),
{
    let t = pg_type;
    if str_eq(t, "INT2") || str_eq(t, "SMALLINT") || str_eq(t, "SMALLSERIAL") {
        CellKind::Int16
    } else if str_eq(t, "INT4") || str_eq(t, "INT") || str_eq(t, "SERIAL") {
        CellKind::Int32
    } else if str_eq(t, "INT8") || str_eq(t, "BIGINT") || str_eq(t, "BIGSERIAL") {
        CellKind::Int64
    } else if str_eq(t, "FLOAT4") || str_eq(t, "REAL") {
        CellKind::Float32
    } else if str_eq(t, "FLOAT8") || str_eq(t, "DOUBLE PRECISION") {
        CellKind::Float64
    } else if str_eq(t, "BOOL") || str_eq(t, "BOOLEAN") {
        CellKind::Bool
    } else {
        CellKind::Text
    }
}

/// The queries a pg workload runs when none are given: `SELECT 1`.
pub fn default_queries() -> (q: Vec<String>)
    ensures
        q@.len() == 1,
        q@[0]@ == "SELECT 1"@,
{
    let mut q: Vec<String> = Vec::new();
    q.push(String::from_str("SELECT 1"));
    q
}

/// The connection pool size when none is given.
pub fn pool_size(max_conns: Option<u32>) -> (n: u32)
    ensures
        n == match max_conns {
            Some(m) => m,
            None => 5,
        },
{
    match max_conns {
        Some(m) => m,
        None => 5,
    }
}

} // verus!
