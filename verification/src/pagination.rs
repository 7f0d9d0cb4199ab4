//! Builds the paginated JSON aggregation query: one statement fetching a
//! page of rows and the total count together. Collaborator code runs it;
//! here only the text and the parameter list are computed, and both are
//! pinned down exactly.

use vstd::prelude::*;
use vstd::string::*;

use crate::http::{dec_string, spec_dec};

verus! {

/// One positional query parameter.
pub enum DbParam {
    Int64(i64),
    Text(String),
}

/// A built query: its text, its positional parameters, and the page
/// bounds actually used.
pub struct PaginationQuery {
    pub sql: String,
    pub params: Vec<DbParam>,
    pub top: i64,
    pub skip: i64,
}

/// The trailing `OFFSET`/`LIMIT` clause text, with positional parameter
/// numbers continuing after the `n` where-clause parameters. Only bounds
/// the caller passed appear, `OFFSET` first.
pub open spec fn spec_clause_str(n: int, top: Option<i64>, skip: Option<i64>) -> Seq<char> {
    if skip is Some && top is Some {
        " OFFSET $"@ + spec_dec(n + 1) + " LIMIT $"@ + spec_dec(n + 2)
    } else if skip is Some {
        " OFFSET $"@ + spec_dec(n + 1)
    } else if top is Some {
        " LIMIT $"@ + spec_dec(n + 1)
    } else {
        Seq::empty()
    }
}

/// The `WHERE` text, empty when no clause was passed.
pub open spec fn spec_where_str(w: Option<Seq<char>>) -> Seq<char> {
    match w {
        Some(c) => " WHERE "@ + c,
        None => Seq::empty(),
    }
}

/// The full query text: a CTE page of `select_columns` rows under the
/// where clause and page bounds, aggregated as JSON next to the unbounded
/// total count.
pub open spec fn spec_pagination_sql(
    table: Seq<char>,
    select_columns: Seq<char>,
    json_object: Seq<char>,
    w: Option<Seq<char>>,
    n: int,
    top: Option<i64>,
    skip: Option<i64>,
) -> Seq<char> {
    "WITH page AS (SELECT "@ + select_columns + " FROM \""@ + table + "\""@ + spec_where_str(w)
        + spec_clause_str(n, top, skip) + ")\nSELECT (SELECT COUNT(*) FROM \""@ + table + "\""@
        + spec_where_str(w) + ") AS total,\nCOALESCE(json_agg(json_build_object("@ + json_object
        + ")), '[]') AS data_json\nFROM page;"@
}

/// The positional parameters: the where-clause parameters, then the
/// offset, then the limit, each only when passed.
pub open spec fn spec_pagination_params(
    where_params: Seq<DbParam>,
    top: Option<i64>,
    skip: Option<i64>,
    top_val: i64,
    skip_val: i64,
) -> Seq<DbParam> {
    let with_skip = if skip is Some {
        where_params.push(DbParam::Int64(skip_val))
    } else {
        where_params
    };
    if top is Some {
        with_skip.push(DbParam::Int64(top_val))
    } else {
        with_skip
    }
}

/// Builds the paginated JSON aggregation query. The page bounds default
/// to the first ten rows; a missing bound adds no clause and no
/// parameter.
pub fn build_paginated_json_query(
    table: &str,
    select_columns: &str,
    json_object: &str,
    where_clause: Option<&str>,
    where_params: Vec<DbParam>,
    top: Option<i64>,
    skip: Option<i64>,
) -> (r: PaginationQuery)
    requires
        where_params@.len() + 2 <= u64::MAX,
    ensures
        r.top == (match top {
            Some(t) => t,
            None => 10,
        }),
        r.skip == (match skip {
            Some(s) => s,
            None => 0,
        }),
        r.params@ == spec_pagination_params(where_params@, top, skip, r.top, r.skip),
        r.sql@ == spec_pagination_sql(
            table@,
            select_columns@,
            json_object@,
            (match where_clause {
                Some(w) => Some(w@),
                None => None,
            }),
            where_params@.len() as int,
            top,
            skip,
        ),
{
    let top_val: i64 = match top {
        Some(t) => t,
        None => 10,
    };
    let skip_val: i64 = match skip {
        Some(s) => s,
        None => 0,
    };
    let n = where_params.len();
    let ghost wp = where_params@;

    let mut params = where_params;
    let mut clause_str = String::new();
    if skip.is_some() {
        clause_str.append(" OFFSET $");
        let num = dec_string((n as u64) + 1);
        clause_str.append(num.as_str());
        params.push(DbParam::Int64(skip_val));
    }
    if top.is_some() {
        clause_str.append(" LIMIT $");
        let num = dec_string(if skip.is_some() {
            (n as u64) + 2
        } else {
            (n as u64) + 1
        });
        clause_str.append(num.as_str());
        params.push(DbParam::Int64(top_val));
    }
    proof {
        assert(clause_str@ =~= spec_clause_str(n as int, top, skip));
        assert(params@ =~= spec_pagination_params(wp, top, skip, top_val, skip_val));
    }

    let mut where_str = String::new();
    match where_clause {
        Some(w) => {
            where_str.append(" WHERE ");
            where_str.append(w);
        },
        None => {},
    }
    proof {
        assert(where_str@ =~= spec_where_str(
            match where_clause {
                Some(w) => Some(w@),
                None => None,
            },
        ));
    }

    let mut sql = String::from_str("WITH page AS (SELECT ");
    sql.append(select_columns);
    sql.append(" FROM \"");
    sql.append(table);
    sql.append("\"");
    sql.append(where_str.as_str());
    sql.append(clause_str.as_str());
    sql.append(")\nSELECT (SELECT COUNT(*) FROM \"");
    sql.append(table);
    sql.append("\"");
    sql.append(where_str.as_str());
    sql.append(") AS total,\nCOALESCE(json_agg(json_build_object(");
    sql.append(json_object);
    sql.append(")), '[]') AS data_json\nFROM page;");
    proof {
        assert(sql@ =~= spec_pagination_sql(
            table@,
            select_columns@,
            json_object@,
            (match where_clause {
                Some(w) => Some(w@),
                None => None,
            }),
            wp.len() as int,
            top,
            skip,
        ));
    }

    PaginationQuery { sql, params, top: top_val, skip: skip_val }
}

} // verus!
