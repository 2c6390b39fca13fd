//! Query-text building and paging for the datastore layer.
//!
//! The datastore itself is an outside collaborator; what belongs to the
//! library is the text it is driven with — condition, order and limit
//! clauses — the paging arithmetic, and the schema migration catalogue.

use vstd::prelude::*;

use crate::numfmt::{push_i64, spec_decimal_int};
use vstd::string::StringExecFns;

verus! {

/// `parts` joined with `sep` between neighbours.
pub open spec fn spec_join(parts: Seq<Seq<char>>, sep: Seq<char>) -> Seq<char>
    decreases parts.len(),
{
    if parts.len() == 0 {
        Seq::empty()
    } else if parts.len() == 1 {
        parts[0]
    } else {
        parts[0] + sep + spec_join(parts.drop_first(), sep)
    }
}

proof fn lemma_join_push(parts: Seq<Seq<char>>, sep: Seq<char>, x: Seq<char>)
    ensures
        parts.len() == 0 ==> spec_join(parts.push(x), sep) == x,
        parts.len() > 0 ==> spec_join(parts.push(x), sep) == spec_join(parts, sep) + sep + x,
    decreases parts.len(),
{
    if parts.len() == 0 {
        assert(spec_join(parts.push(x), sep) == parts.push(x)[0]);
    } else {
        lemma_join_push(parts.drop_first(), sep, x);
        assert(parts.push(x).drop_first() =~= parts.drop_first().push(x));
        if parts.len() == 1 {
            assert(spec_join(parts.push(x), sep) =~= spec_join(parts, sep) + sep + x);
        } else {
            assert(spec_join(parts.push(x), sep) =~= spec_join(parts, sep) + sep + x);
        }
    }
}

/// One page of query results with its paging arithmetic.
#[derive(Debug)]
pub struct PageResult<T> {
    pub items: Vec<T>,
    pub total: i64,
    pub page: i32,
    pub page_size: i32,
    pub total_pages: i32,
}

/// How many pages a total fills: the rounded-up quotient, saturating
/// into the `i32` range, with a degenerate page size giving the
/// saturated value of the corresponding infinity (or zero for an empty
/// total).
pub open spec fn spec_total_pages(total: int, page_size: int) -> int {
    if page_size <= 0 {
        if total > 0 {
            0x7FFF_FFFF
        } else if total < 0 {
            -0x8000_0000
        } else {
            0
        }
    } else {
        let q = if total <= 0 {
            0
        } else {
            (total + page_size - 1) / page_size
        };
        if q > 0x7FFF_FFFF {
            0x7FFF_FFFF
        } else {
            q
        }
    }
}

impl<T> PageResult<T> {
    pub fn new(items: Vec<T>, total: i64, page: i32, page_size: i32) -> (r: PageResult<T>)
        ensures
            r.items@ == items@,
            r.total == total,
            r.page == page,
            r.page_size == page_size,
            r.total_pages == spec_total_pages(total as int, page_size as int),
    {
        let total_pages: i32 = if page_size <= 0 {
            if total > 0 {
                0x7FFF_FFFF
            } else if total < 0 {
                -0x8000_0000
            } else {
                0
            }
        } else {
            if total <= 0 {
                0
            } else {
                let q: i128 = ((total as i128) + (page_size as i128) - 1) / (page_size as i128);
                if q > 0x7FFF_FFFF {
                    0x7FFF_FFFF
                } else {
                    q as i32
                }
            }
        };
        PageResult { items, total, page, page_size, total_pages }
    }
}

/// Builder of the textual condition, order and limit clauses of a
/// query.
#[derive(Debug)]
pub struct QueryBuilder {
    pub conditions: Vec<String>,
    pub params: Vec<String>,
    pub order_by: Option<String>,
    pub limit: Option<i32>,
    pub offset: Option<i32>,
}

/// The views of a list of condition strings.
pub open spec fn cond_views(v: Seq<String>) -> Seq<Seq<char>> {
    v.map_values(|s: String| s@)
}

impl QueryBuilder {
    pub fn new() -> (r: QueryBuilder)
        ensures
            r.conditions@ == Seq::<String>::empty(),
            r.params@ == Seq::<String>::empty(),
            r.order_by is None,
            r.limit is None,
            r.offset is None,
    {
        QueryBuilder {
            conditions: Vec::new(),
            params: Vec::new(),
            order_by: None,
            limit: None,
            offset: None,
        }
    }

    /// Adds one condition with its bound parameter.
    pub fn add_condition(self, condition: &str, param: &str) -> (r: QueryBuilder)
        ensures
            cond_views(r.conditions@) == cond_views(self.conditions@).push(condition@),
            cond_views(r.params@) == cond_views(self.params@).push(param@),
            r.order_by == self.order_by,
            r.limit == self.limit,
            r.offset == self.offset,
    {
        let mut s = self;
        s.conditions.push(String::from_str(condition));
        s.params.push(String::from_str(param));
        proof {
            assert(cond_views(s.conditions@) =~= cond_views(self.conditions@).push(condition@));
            assert(cond_views(s.params@) =~= cond_views(self.params@).push(param@));
        }
        s
    }

    pub fn order_by(self, order: &str) -> (r: QueryBuilder)
        ensures
            r.order_by matches Some(o) && o@ == order@,
            r.conditions@ == self.conditions@,
            r.params@ == self.params@,
            r.limit == self.limit,
            r.offset == self.offset,
    {
        let mut s = self;
        s.order_by = Some(String::from_str(order));
        s
    }

    pub fn limit(self, limit: i32) -> (r: QueryBuilder)
        ensures
            r.limit == Some(limit),
            r.conditions@ == self.conditions@,
            r.params@ == self.params@,
            r.order_by == self.order_by,
            r.offset == self.offset,
    {
        let mut s = self;
        s.limit = Some(limit);
        s
    }

    pub fn offset(self, offset: i32) -> (r: QueryBuilder)
        ensures
            r.offset == Some(offset),
            r.conditions@ == self.conditions@,
            r.params@ == self.params@,
            r.order_by == self.order_by,
            r.limit == self.limit,
    {
        let mut s = self;
        s.offset = Some(offset);
        s
    }

    /// `WHERE` with the conditions joined by `AND`, or nothing at all.
    pub fn build_where_clause(&self) -> (r: String)
        ensures
            self.conditions@.len() == 0 ==> r@ == Seq::<char>::empty(),
            self.conditions@.len() > 0 ==> r@ == "WHERE "@ + spec_join(
                cond_views(self.conditions@),
                " AND "@,
            ),
    {
        if self.conditions.len() == 0 {
            let r = String::new();
            return r;
        }
        let mut out = String::from_str("WHERE ");
        let n = self.conditions.len();
        let mut i: usize = 0;
        while i < n
            invariant
                n == self.conditions@.len(),
                n > 0,
                0 <= i <= n,
                i == 0 ==> out@ == "WHERE "@,
                i > 0 ==> out@ == "WHERE "@ + spec_join(
                    cond_views(self.conditions@).take(i as int),
                    " AND "@,
                ),
            decreases n - i,
        {
            if i > 0 {
                out.append(" AND ");
            }
            out.append(self.conditions[i].as_str());
            proof {
                lemma_join_push(
                    cond_views(self.conditions@).take(i as int),
                    " AND "@,
                    self.conditions@[i as int]@,
                );
                assert(cond_views(self.conditions@).take(i + 1) =~= cond_views(
                    self.conditions@,
                ).take(i as int).push(self.conditions@[i as int]@));
                assert(out@ =~= "WHERE "@ + spec_join(
                    cond_views(self.conditions@).take(i + 1),
                    " AND "@,
                ));
            }
            i = i + 1;
        }
        proof {
            assert(cond_views(self.conditions@).take(n as int) =~= cond_views(self.conditions@));
        }
        out
    }

    /// `ORDER BY` with the configured ordering, or nothing at all.
    pub fn build_order_clause(&self) -> (r: String)
        ensures
            match self.order_by {
                Some(o) => r@ == "ORDER BY "@ + o@,
                None => r@ == Seq::<char>::empty(),
            },
    {
        match &self.order_by {
            Some(order) => {
                let mut out = String::from_str("ORDER BY ");
                out.append(order.as_str());
                out
            },
            None => String::new(),
        }
    }

    /// `LIMIT`, with `OFFSET` only when both are configured, or nothing
    /// at all.
    pub fn build_limit_clause(&self) -> (r: String)
        ensures
            match (self.limit, self.offset) {
                (Some(l), Some(o)) => r@ == "LIMIT "@ + spec_decimal_int(l as int) + " OFFSET "@
                    + spec_decimal_int(o as int),
                (Some(l), None) => r@ == "LIMIT "@ + spec_decimal_int(l as int),
                _ => r@ == Seq::<char>::empty(),
            },
    {
        match (&self.limit, &self.offset) {
            (Some(l), Some(o)) => {
                let mut out = String::from_str("LIMIT ");
                push_i64(&mut out, *l as i64);
                out.append(" OFFSET ");
                push_i64(&mut out, *o as i64);
                proof {
                    assert(out@ =~= "LIMIT "@ + spec_decimal_int(self.limit->0 as int)
                        + " OFFSET "@ + spec_decimal_int(self.offset->0 as int));
                }
                out
            },
            (Some(l), None) => {
                let mut out = String::from_str("LIMIT ");
                push_i64(&mut out, *l as i64);
                out
            },
            _ => String::new(),
        }
    }
}

// ---------------------------------------------------------------------
// Schema migrations
// ---------------------------------------------------------------------

/// One schema migration step.
#[derive(Debug)]
pub struct Migration {
    pub version: i32,
    pub description: String,
    pub up_sql: String,
    pub down_sql: String,
}

/// The catalogue of schema migrations, in ascending version order.
#[derive(Debug)]
pub struct MigrationManager {
    pub migrations: Vec<Migration>,
}

impl MigrationManager {
    /// Versions strictly ascend.
    pub open spec fn wf(&self) -> bool {
        forall|i: int, j: int|
            0 <= i < j < self.migrations@.len() ==> (#[trigger] self.migrations@[i]).version < (
            #[trigger] self.migrations@[j]).version
    }

    /// The catalogue ships one migration: the initial schema, at
    /// version 1.
    pub fn new() -> (r: MigrationManager)
        ensures
            r.wf(),
            r.migrations@.len() == 1,
            r.migrations@[0].version == 1,
    {
        let initial = Migration {
            version: 1,
            description: String::from_str("Initial database schema"),
            up_sql: String::from_str(
                "CREATE TABLE IF NOT EXISTS users (id TEXT PRIMARY KEY, username TEXT NOT NULL, created_at TEXT NOT NULL, updated_at TEXT NOT NULL); CREATE TABLE IF NOT EXISTS patients (id TEXT PRIMARY KEY, name TEXT NOT NULL, age INTEGER, gender TEXT, phone TEXT, tags TEXT, created_at TEXT NOT NULL, updated_at TEXT NOT NULL); CREATE TABLE IF NOT EXISTS consultations (id TEXT PRIMARY KEY, patient_id TEXT NOT NULL REFERENCES patients(id), doctor_id TEXT, status TEXT, consultation_type TEXT, created_at TEXT NOT NULL, updated_at TEXT NOT NULL); CREATE TABLE IF NOT EXISTS messages (id TEXT PRIMARY KEY, consultation_id TEXT NOT NULL REFERENCES consultations(id), sender_type TEXT, message_type TEXT, content TEXT, file_path TEXT, sync_status TEXT, read_status TEXT, timestamp TEXT NOT NULL); CREATE TABLE IF NOT EXISTS medical_records (id TEXT PRIMARY KEY, patient_id TEXT NOT NULL REFERENCES patients(id), consultation_id TEXT, diagnosis TEXT, doctor_id TEXT, created_at TEXT NOT NULL); CREATE TABLE IF NOT EXISTS file_cache (id TEXT PRIMARY KEY, file_url TEXT NOT NULL, local_path TEXT NOT NULL, file_size INTEGER, expires_at TEXT, downloaded_at TEXT NOT NULL, last_accessed TEXT NOT NULL); CREATE TABLE IF NOT EXISTS audit_logs (id TEXT PRIMARY KEY, user_id TEXT NOT NULL, action TEXT NOT NULL, resource_type TEXT, resource_id TEXT, status TEXT, timestamp TEXT NOT NULL);",
            ),
            down_sql: String::from_str(
                "DROP TABLE IF EXISTS file_cache; DROP TABLE IF EXISTS medical_records; DROP TABLE IF EXISTS messages; DROP TABLE IF EXISTS consultations; DROP TABLE IF EXISTS patients; DROP TABLE IF EXISTS users; DROP TABLE IF EXISTS schema_migrations;",
            ),
        };
        let mut migrations: Vec<Migration> = Vec::new();
        migrations.push(initial);
        MigrationManager { migrations }
    }
}

// ---------------------------------------------------------------------
// Aggregate shapes reported by the datastore layer
// ---------------------------------------------------------------------

/// Size and per-table row counts of the datastore file.
#[derive(Debug)]
pub struct DatabaseStats {
    pub file_size: u64,
    pub table_counts: Vec<(String, i64)>,
}

/// How often one audit action occurred.
#[derive(Debug)]
pub struct ActionStat {
    pub action: String,
    pub count: i64,
}

/// Consultation counts by state.
#[derive(Clone, Copy, Debug, PartialEq, Eq, Structural)]
pub struct ConsultationStats {
    pub pending: i64,
    pub active: i64,
    pub completed: i64,
}

/// File-cache usage counts.
#[derive(Clone, Copy, Debug, PartialEq, Eq, Structural)]
pub struct CacheStats {
    pub total_files: i64,
    pub total_size: i64,
    pub expired_files: i64,
}

/// Message counts by state.
#[derive(Clone, Copy, Debug, PartialEq, Eq, Structural)]
pub struct MessageStats {
    pub total: i64,
    pub unread: i64,
    pub pending_sync: i64,
}

} // verus!
