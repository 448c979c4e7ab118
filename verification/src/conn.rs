//! The concurrency-safe connection to the store and its in-progress
//! transaction handle.
//!
//! A `Conn` owns the live metadata: the generation counter, the
//! partition map and a shared handle to the schema. Readers borrow the
//! connection; a writer takes it exclusively, so many long readers and a
//! single advancing writer can coexist. An `InProgress` stages changes
//! inside an immediate substrate transaction and installs them into the
//! connection at commit, atomically with a generation increment.

use std::sync::Arc;
use vstd::prelude::*;
use crate::types::{
    Entid,
    StoreError,
    Keyword,
    TypedValue,
    TAG_REF,
    TAG_BOOLEAN,
    TAG_INSTANT,
    TAG_LONG,
    TAG_TEXT,
    TAG_KEYWORD,
    DB_IDENT,
    DB_NEXT,
    USER0,
    TX0,
    MAX_ENTID,
};
use crate::partition::{Partition, PartitionMap, bootstrap_partition_map};
use crate::schema::{ident_views_eq, schema_eq, Schema, bootstrap_schema};
use crate::entities::Entity;
use crate::transactor::{transact_core, tempids_allocated, tempids_injective, TxReport};
use crate::transactor::{all_vector_forms, entity_e_gated, mentions_tempid, names_ungated, upsert_justified};
use crate::store::{self, SqlVal};
use crate::query::{self, QueryResults};

verus! {

/// Connection metadata: owned data for the volatile parts (generation
/// and partition map), and a shared handle for the infrequently changing
/// schema, so long readers keep their snapshot while the writer moves
/// the metadata forward.
pub struct Metadata {
    pub generation: u64,
    pub partition_map: PartitionMap,
    pub schema: Arc<Schema>,
}

impl Metadata {
    // Intentionally not public.
    fn new(generation: u64, partition_map: PartitionMap, schema: Arc<Schema>) -> (r: Metadata)
        ensures
            r.generation == generation,
            r.partition_map == partition_map,
            r.schema == schema,
    {
        Metadata { generation, partition_map, schema }
    }

    /// The metadata is consistent: both halves well formed.
    pub open spec fn wf(self) -> bool {
        &&& self.partition_map.wf()
        &&& (*self.schema).wf()
    }
}

/// Relies on `std::sync::Arc::clone`: a new handle to the same shared
/// schema value.
#[verifier::external_body]
fn arc_clone_schema(v: &Arc<Schema>) -> (r: Arc<Schema>)
    ensures
        r == *v,
{
    v.clone()
}

/// A mutable, safe reference to the current store.
///
/// Reads borrow the connection shared; beginning and committing a
/// transaction borrow it exclusively, so the borrow discipline itself
/// admits many parallel readers and at most one advancing writer.
pub struct Conn {
    pub metadata: Metadata,
}

/// Represents an in-progress, not yet committed, set of changes to the
/// store. Call `commit` to commit the changes, or `rollback` to discard
/// them; dropping the handle discards them with it, because the
/// underlying substrate transaction rolls back when dropped.
pub struct InProgress<'c> {
    pub transaction: rusqlite::Transaction<'c>,
    pub generation: u64,
    pub partition_map: PartitionMap,
    pub schema: Schema,
    pub last_report: Option<TxReport>,
}

/// The stored form of a typed value: the column value and its tag.
fn encode_value(v: &TypedValue) -> (r: (SqlVal, i64))
    ensures
        r.1 == match v {
            TypedValue::Ref(_) => TAG_REF,
            TypedValue::Boolean(_) => TAG_BOOLEAN,
            TypedValue::Instant(_) => TAG_INSTANT,
            TypedValue::Long(_) => TAG_LONG,
            TypedValue::Text(_) => TAG_TEXT,
            TypedValue::Keyword(_) => TAG_KEYWORD,
        },
{
    match v {
        TypedValue::Ref(n) => (SqlVal::Int(*n), TAG_REF),
        TypedValue::Boolean(b) => (
            SqlVal::Int(
                if *b {
                    1
                } else {
                    0
                },
            ),
            TAG_BOOLEAN,
        ),
        TypedValue::Instant(n) => (SqlVal::Int(*n), TAG_INSTANT),
        TypedValue::Long(n) => (SqlVal::Int(*n), TAG_LONG),
        TypedValue::Text(s) => (SqlVal::Str(s.clone()), TAG_TEXT),
        TypedValue::Keyword(kw) => (SqlVal::Str(kw.to_text()), TAG_KEYWORD),
    }
}

/// Rebuild the partition map from the stored `parts` rows: each
/// partition is either untouched bootstrap state or holds the values of
/// a row naming it; an out-of-range row is refused.
fn partition_map_from_rows(rows: &Vec<(String, i64, i64, i64)>) -> (r: Result<
    PartitionMap,
    StoreError,
>)
    ensures
        r matches Ok(pm) ==> pm.wf() && (pm.db == crate::partition::spec_bootstrap_partition_map(
            DB_NEXT,
        ).db || exists|i: int|
            0 <= i < rows@.len() && (#[trigger] rows@[i]).0@ == ":db.part/db"@ && pm.db
                == (Partition { start: rows@[i].1, end: rows@[i].2, index: rows@[i].3 })) && (
        pm.user == crate::partition::spec_bootstrap_partition_map(DB_NEXT).user || exists|i: int|
            0 <= i < rows@.len() && (#[trigger] rows@[i]).0@ == ":db.part/user"@ && pm.user
                == (Partition { start: rows@[i].1, end: rows@[i].2, index: rows@[i].3 })) && (pm.tx
            == crate::partition::spec_bootstrap_partition_map(DB_NEXT).tx || exists|i: int|
            0 <= i < rows@.len() && (#[trigger] rows@[i]).0@ == ":db.part/tx"@ && pm.tx
                == (Partition { start: rows@[i].1, end: rows@[i].2, index: rows@[i].3 })),
{
    let mut pm = bootstrap_partition_map(DB_NEXT);
    let mut i: usize = 0;
    while i < rows.len()
        invariant
            i <= rows@.len(),
            pm.wf(),
            pm.db == crate::partition::spec_bootstrap_partition_map(DB_NEXT).db || exists|j: int|
                0 <= j < i && (#[trigger] rows@[j]).0@ == ":db.part/db"@ && pm.db == (Partition {
                    start: rows@[j].1,
                    end: rows@[j].2,
                    index: rows@[j].3,
                }),
            pm.user == crate::partition::spec_bootstrap_partition_map(DB_NEXT).user || exists|
                j: int,
            |
                0 <= j < i && (#[trigger] rows@[j]).0@ == ":db.part/user"@ && pm.user
                    == (Partition { start: rows@[j].1, end: rows@[j].2, index: rows@[j].3 }),
            pm.tx == crate::partition::spec_bootstrap_partition_map(DB_NEXT).tx || exists|j: int|
                0 <= j < i && (#[trigger] rows@[j]).0@ == ":db.part/tx"@ && pm.tx == (Partition {
                    start: rows@[j].1,
                    end: rows@[j].2,
                    index: rows@[j].3,
                }),
        decreases rows@.len() - i,
    {
        let row = &rows[i];
        let p = Partition { start: row.1, end: row.2, index: row.3 };
        if row.0 == String::from_str(":db.part/db") {
            if !(p.start == 0 && p.end == USER0 && 0 <= p.index && p.index <= p.end) {
                return Err(StoreError::Substrate(String::from_str("corrupt partition row")));
            }
            pm.db = p;
        } else if row.0 == String::from_str(":db.part/user") {
            if !(p.start == USER0 && p.end == MAX_ENTID && p.start <= p.index && p.index
                <= p.end) {
                return Err(StoreError::Substrate(String::from_str("corrupt partition row")));
            }
            pm.user = p;
        } else if row.0 == String::from_str(":db.part/tx") {
            if !(p.start == TX0 && p.end == MAX_ENTID && p.start <= p.index && p.index <= p.end) {
                return Err(StoreError::Substrate(String::from_str("corrupt partition row")));
            }
            pm.tx = p;
        }
        i = i + 1;
    }
    Ok(pm)
}

/// Write the current partition cursors into the `parts` table, inside
/// the open substrate transaction.
fn write_parts(conn: &rusqlite::Connection, pm: &PartitionMap) -> (r: Result<(), StoreError>)
    ensures
        r matches Err(e) ==> e matches StoreError::Substrate(_),
{
    match store::update_part_row(conn, ":db.part/db", pm.db.start, pm.db.end, pm.db.index) {
        Ok(()) => {},
        Err(e) => {
            return Err(store::substrate_error(&e));
        },
    }
    match store::update_part_row(conn, ":db.part/user", pm.user.start, pm.user.end, pm.user.index) {
        Ok(()) => {},
        Err(e) => {
            return Err(store::substrate_error(&e));
        },
    }
    match store::update_part_row(conn, ":db.part/tx", pm.tx.start, pm.tx.end, pm.tx.index) {
        Ok(()) => {},
        Err(e) => {
            return Err(store::substrate_error(&e));
        },
    }
    Ok(())
}

/// A stored row that installs an ident: a `:db/ident` assertion whose
/// value is a splittable keyword text.
pub open spec fn ident_row(row: store::RawDatomRow) -> bool {
    &&& row.a == DB_IDENT
    &&& row.tag == TAG_KEYWORD
    &&& match row.v {
        SqlVal::Str(t) => exists|kw: (Seq<char>, Seq<char>)| crate::query::splits_to(t@, kw),
        SqlVal::Int(_) => false,
    }
}

/// Reinstall the idents of the stored `:db/ident` datoms into `base`:
/// afterwards every entity such a row names carries an ident, the
/// attributes are untouched, and every entity that already had an ident
/// keeps one.
pub fn schema_from_ident_rows(base: Schema, rows: &Vec<store::RawDatomRow>) -> (r: Result<
    Schema,
    StoreError,
>)
    requires
        base.wf(),
    ensures
        match r {
            Ok(s) => {
                &&& s.wf()
                &&& s.attribute_map@ == base.attribute_map@
                &&& forall|j: int|
                    0 <= j < rows@.len() && ident_row(#[trigger] rows@[j]) ==> s.spec_has_ident(
                        rows@[j].e,
                    )
                &&& forall|e: Entid|
                    #[trigger] base.spec_has_ident(e) ==> s.spec_has_ident(e)
            },
            Err(_) => true,
        },
{
    let mut schema = base;
    let ghost base0 = schema;
    let mut i: usize = 0;
    while i < rows.len()
        invariant
            i <= rows@.len(),
            schema.wf(),
            schema.attribute_map@ == base0.attribute_map@,
            forall|j: int|
                0 <= j < i && ident_row(#[trigger] rows@[j]) ==> schema.spec_has_ident(rows@[j].e),
            forall|e: Entid| #[trigger] base0.spec_has_ident(e) ==> schema.spec_has_ident(e),
        decreases rows@.len() - i,
    {
        let row = &rows[i];
        if row.a == DB_IDENT && row.tag == TAG_KEYWORD {
            match &row.v {
                SqlVal::Str(text) => {
                    match query::keyword_of_text(text.as_str()) {
                        Some(kw) => {
                            let ghost sprev = schema;
                            let ghost kwg = kw;
                            match schema.install_ident(row.e, kw) {
                                Ok(()) => {},
                                Err(e) => {
                                    return Err(e);
                                },
                            }
                            proof {
                                assert(schema.spec_has_ident(rows@[i as int].e));
                                assert forall|j: int|
                                    0 <= j < i && ident_row(#[trigger] rows@[j])
                                    implies schema.spec_has_ident(rows@[j].e) by {
                                    crate::schema::lemma_has_ident_preserved(
                                        sprev,
                                        schema,
                                        rows@[i as int].e,
                                        kwg,
                                        rows@[j].e,
                                    );
                                }
                                assert forall|e: Entid|
                                    #[trigger] base0.spec_has_ident(e)
                                    implies schema.spec_has_ident(e) by {
                                    crate::schema::lemma_has_ident_preserved(
                                        sprev,
                                        schema,
                                        rows@[i as int].e,
                                        kwg,
                                        e,
                                    );
                                }
                            }
                        },
                        None => {},
                    }
                },
                _ => {},
            }
        }
        i = i + 1;
    }
    Ok(schema)
}

/// Create the store's tables if they are missing.
fn ensure_tables(conn: &rusqlite::Connection) -> (r: Result<(), StoreError>)
{
    let stmts: Vec<&str> = vec![
        "CREATE TABLE IF NOT EXISTS datoms (e INTEGER NOT NULL, a INTEGER NOT NULL, v BLOB, value_type_tag INTEGER NOT NULL, tx INTEGER NOT NULL)",
        "CREATE TABLE IF NOT EXISTS transactions (e INTEGER NOT NULL, a INTEGER NOT NULL, v BLOB, value_type_tag INTEGER NOT NULL, tx INTEGER NOT NULL, added INTEGER NOT NULL)",
        "CREATE TABLE IF NOT EXISTS fulltext_values (text TEXT NOT NULL)",
        "CREATE TABLE IF NOT EXISTS parts (part TEXT PRIMARY KEY, part_start INTEGER NOT NULL, part_end INTEGER NOT NULL, idx INTEGER NOT NULL)",
    ];
    let mut i: usize = 0;
    while i < stmts.len()
        invariant
            i <= stmts@.len(),
        decreases stmts@.len() - i,
    {
        match store::exec_sql(conn, stmts[i]) {
            Ok(_) => {},
            Err(e) => {
                return Err(store::substrate_error(&e));
            },
        }
        i = i + 1;
    }
    Ok(())
}

impl Conn {
    // Intentionally not public.
    fn new(partition_map: PartitionMap, schema: Schema) -> (r: Conn)
        ensures
            r.metadata.generation == 0,
            r.metadata.partition_map == partition_map,
            r.metadata.schema == schema,
    {
        Conn { metadata: Metadata::new(0, partition_map, Arc::new(schema)) }
    }

    /// Open a connection over the given substrate handle: create and
    /// bootstrap the tables if the store is fresh, else read the current
    /// partition map and schema back. A new connection observes
    /// generation zero.
    pub fn connect(sqlite: &mut rusqlite::Connection) -> (r: Result<Conn, StoreError>)
        ensures
            r matches Ok(conn) ==> conn.metadata.generation == 0 && conn.metadata.wf() && (
            *conn.metadata.schema).spec_attribute(
                DB_IDENT,
                crate::schema::Attribute {
                    value_type: crate::types::ValueType::Keyword,
                    fulltext: false,
                },
            ) && (*conn.metadata.schema).spec_attribute(
                crate::types::DB_DOC,
                crate::schema::Attribute {
                    value_type: crate::types::ValueType::Text,
                    fulltext: true,
                },
            ) && (*conn.metadata.schema).spec_attribute(
                crate::types::DB_TX_INSTANT,
                crate::schema::Attribute {
                    value_type: crate::types::ValueType::Instant,
                    fulltext: false,
                },
            ) && (*conn.metadata.schema).spec_attribute(
                crate::types::DB_SCHEMA_ATTRIBUTE,
                crate::schema::Attribute {
                    value_type: crate::types::ValueType::Ref,
                    fulltext: false,
                },
            ),
    {
        match ensure_tables(sqlite) {
            Ok(()) => {},
            Err(e) => {
                return Err(e);
            },
        }
        let parts = match store::read_part_rows(sqlite) {
            Ok(rows) => rows,
            Err(e) => {
                return Err(store::substrate_error(&e));
            },
        };
        let mut schema = match bootstrap_schema() {
            Ok(s) => s,
            Err(e) => {
                return Err(e);
            },
        };
        if parts.len() == 0 {
            // A fresh store: install the bootstrap partitions, idents
            // and the bootstrap transaction's instant.
            let pm = bootstrap_partition_map(DB_NEXT);
            match write_parts(sqlite, &pm) {
                Ok(()) => {},
                Err(e) => {
                    return Err(e);
                },
            }
            let mut i: usize = 0;
            while i < schema.ident_map.len()
                invariant
                    schema.wf(),
                decreases schema.ident_map@.len() - i,
            {
                let e = schema.ident_map[i].0;
                let text = schema.ident_map[i].1.to_text();
                match store::insert_datom_row(sqlite, e, DB_IDENT, &SqlVal::Str(text), TAG_KEYWORD, TX0) {
                    Ok(()) => {},
                    Err(err) => {
                        return Err(store::substrate_error(&err));
                    },
                }
                i = i + 1;
            }
            match store::insert_datom_row(
                sqlite,
                TX0,
                crate::types::DB_TX_INSTANT,
                &SqlVal::Int(0),
                TAG_INSTANT,
                TX0,
            ) {
                Ok(()) => {},
                Err(err) => {
                    return Err(store::substrate_error(&err));
                },
            }
            return Ok(Conn::new(pm, schema));
        }
        // An existing store: partitions from `parts`, idents from the
        // stored `:db/ident` datoms.
        let pm = match partition_map_from_rows(&parts) {
            Ok(pm) => pm,
            Err(e) => {
                return Err(e);
            },
        };
        let rows = match store::read_datom_rows(sqlite) {
            Ok(rows) => rows,
            Err(e) => {
                return Err(store::substrate_error(&e));
            },
        };
        let ghost boot = schema;
        let schema = match schema_from_ident_rows(schema, &rows) {
            Ok(s) => s,
            Err(e) => {
                return Err(e);
            },
        };
        Ok(Conn::new(pm, schema))
    }

    /// Yield the current schema snapshot: a shared handle that stays
    /// valid, unchanged, across any later commits.
    pub fn current_schema(&self) -> (r: Arc<Schema>)
        ensures
            r == self.metadata.schema,
    {
        arc_clone_schema(&self.metadata.schema)
    }

    /// Query the store against the committed state seen by `sqlite`.
    pub fn q_once(&self, sqlite: &rusqlite::Connection, query: &str) -> (r: Result<
        QueryResults,
        StoreError,
    >)
        requires
            self.metadata.wf(),
    {
        let rows = match store::read_datom_rows(sqlite) {
            Ok(rows) => rows,
            Err(e) => {
                return Err(store::substrate_error(&e));
            },
        };
        let schema = arc_clone_schema(&self.metadata.schema);
        query::q_once_rows(&schema, query, &rows)
    }

    /// Convenience point read of one attribute of one entity.
    pub fn lookup_value_for_attribute(
        &self,
        sqlite: &rusqlite::Connection,
        entity: Entid,
        attribute: &Keyword,
    ) -> (r: Result<Option<TypedValue>, StoreError>)
        ensures
            r matches Err(e) ==> e matches StoreError::Substrate(_),
            // An attribute keyword the schema does not know binds nothing.
            !(*self.metadata.schema).spec_has_entid(attribute@) ==> r == Ok::<Option<TypedValue>, StoreError>(None),
    {
        let schema = arc_clone_schema(&self.metadata.schema);
        lookup_with_schema(&schema, sqlite, entity, attribute)
    }

    /// Take an immediate substrate transaction and a working copy of the
    /// current metadata. IMMEDIATE means the substrate's write intent is
    /// taken at once: a competing writer fails to begin rather than
    /// surprising us at commit.
    pub fn begin_transaction<'c>(&self, sqlite: &'c mut rusqlite::Connection) -> (r: Result<
        InProgress<'c>,
        StoreError,
    >)
        requires
            self.metadata.wf(),
        ensures
            match r {
                Ok(ip) => {
                    &&& ip.generation == self.metadata.generation
                    &&& ip.partition_map == self.metadata.partition_map
                    // The working schema is a copy of the current one.
                    &&& ip.schema.attribute_map@ == (*self.metadata.schema).attribute_map@
                    &&& ip.schema.ident_map@ == (*self.metadata.schema).ident_map@
                    &&& ip.wf()
                    &&& ip.last_report is None
                },
                Err(e) => e matches StoreError::Substrate(_),
            },
    {
        let tx = match store::open_immediate(sqlite) {
            Ok(tx) => tx,
            Err(e) => {
                return Err(store::substrate_error(&e));
            },
        };
        Ok(
            InProgress {
                transaction: tx,
                generation: self.metadata.generation,
                partition_map: self.metadata.partition_map,
                schema: (*self.metadata.schema).clone(),
                last_report: None,
            },
        )
    }

    /// Parse, transact and commit in one step. The text is parsed before
    /// any substrate transaction is opened: malformed input fails with a
    /// parse error and leaves the store untouched.
    pub fn transact(&mut self, sqlite: &mut rusqlite::Connection, transaction: &str) -> (r: Result<
        TxReport,
        StoreError,
    >)
        requires
            old(self).metadata.wf(),
        ensures
            final(self).metadata.wf(),
            match r {
                Ok(rep) => {
                    // One successful commit advances the generation by
                    // exactly one.
                    &&& final(self).metadata.generation == old(self).metadata.generation + 1
                    &&& tempids_injective(rep.tempids@)
                    // The committed transaction consumed exactly the next
                    // transaction id; the partition ranges are fixed.
                    &&& rep.tx_id == old(self).metadata.partition_map.tx.index
                    &&& final(self).metadata.partition_map.tx.index == old(
                        self,
                    ).metadata.partition_map.tx.index + 1
                    &&& final(self).metadata.partition_map.db == old(
                        self,
                    ).metadata.partition_map.db
                    &&& final(self).metadata.partition_map.user.start == old(
                        self,
                    ).metadata.partition_map.user.start
                    &&& final(self).metadata.partition_map.user.end == old(
                        self,
                    ).metadata.partition_map.user.end
                    &&& final(self).metadata.partition_map.user.index >= old(
                        self,
                    ).metadata.partition_map.user.index
                    // Tempids were upsert-resolved or took exactly the
                    // region the user cursor advanced over, ascending by
                    // string; no fresh tempids, no advance.
                    &&& tempids_allocated(
                        rep.tempids@,
                        *old(self).metadata.schema,
                        old(self).metadata.partition_map,
                        final(self).metadata.partition_map,
                    )
                },
                Err(e) => {
                    // A failed attempt leaves the metadata unchanged.
                    &&& final(self).metadata == old(self).metadata
                    &&& ((e matches StoreError::EdnParseError(_) || e
                        matches StoreError::TxParseError(_))
                        ==> *final(self) == *old(self))
                    // A rejected entity id was outside every allocated
                    // region.
                    &&& match e {
                        StoreError::DbError(crate::types::DbErrorKind::UnrecognizedEntid(n)) => !old(
                            self,
                        ).metadata.partition_map.spec_allocated(n),
                        _ => true,
                    }
                },
            },
    {
        let parsed = match crate::edn::parse(transaction) {
            Ok(v) => v,
            Err(e) => {
                return Err(e);
            },
        };
        let entities = match crate::entities::parse_entities(&parsed) {
            Ok(ents) => ents,
            Err(e) => {
                return Err(e);
            },
        };
        let ip = match self.begin_transaction(sqlite) {
            Ok(ip) => ip,
            Err(e) => {
                return Err(e);
            },
        };
        let ghost begun_schema = ip.schema;
        let ip = match ip.transact_entities(&entities) {
            Ok(ip) => ip,
            Err(e) => {
                return Err(e);
            },
        };
        let ghost staged_pm = ip.partition_map;
        match ip.commit(self) {
            Ok(Some(report)) => {
                proof {
                    let ghost committed = *old(self).metadata.schema;
                    crate::transactor::lemma_tempids_allocated_ident_views(
                        report.tempids@,
                        begun_schema,
                        committed,
                        old(self).metadata.partition_map,
                        staged_pm,
                    );
                    assert(self.metadata.partition_map == staged_pm);
                    assert(self.metadata.generation == old(self).metadata.generation + 1);
                    assert(report.tx_id == old(self).metadata.partition_map.tx.index);
                    assert(tempids_allocated(
                        report.tempids@,
                        committed,
                        old(self).metadata.partition_map,
                        self.metadata.partition_map,
                    ));
                }
                Ok(report)
            },
            Ok(None) => Err(StoreError::Substrate(String::from_str("commit without report"))),
            Err(e) => Err(e),
        }
    }
}

/// Point read against an arbitrary substrate handle with an explicit
/// schema.
fn lookup_with_schema(
    schema: &Schema,
    sqlite: &rusqlite::Connection,
    entity: Entid,
    attribute: &Keyword,
) -> (r: Result<Option<TypedValue>, StoreError>)
    ensures
        r matches Err(e) ==> e matches StoreError::Substrate(_),
        // An attribute keyword the schema does not know binds nothing.
        !schema.spec_has_entid(attribute@) ==> r == Ok::<Option<TypedValue>, StoreError>(None),
{
    let a = match schema.get_entid(attribute) {
        Some(a) => a,
        None => {
            return Ok(None);
        },
    };
    let is_fulltext = match schema.attribute_for_entid(a) {
        Some(attr) => attr.fulltext,
        None => false,
    };
    let rows = match store::read_datom_rows(sqlite) {
        Ok(rows) => rows,
        Err(e) => {
            return Err(store::substrate_error(&e));
        },
    };
    let fulltext = match store::read_fulltext_rows(sqlite) {
        Ok(rows) => rows,
        Err(e) => {
            return Err(store::substrate_error(&e));
        },
    };
    Ok(query::lookup_rows(schema, &rows, &fulltext, entity, a, is_fulltext))
}

impl<'c> InProgress<'c> {
    /// The working metadata is consistent.
    pub open spec fn wf(self) -> bool {
        &&& self.partition_map.wf()
        &&& self.schema.wf()
    }

    /// The report of the last successful `transact_entities`, if any.
    pub fn last_report(&self) -> (r: Option<&TxReport>)
        ensures
            r is Some <==> self.last_report is Some,
            r matches Some(rep) ==> self.last_report matches Some(own) && rep == own,
    {
        self.last_report.as_ref()
    }

    /// Stage one batch of entities into the open substrate transaction:
    /// run the transactor, write the datom rows and the transaction log,
    /// record the advanced partition cursors, and keep the report.
    /// On failure the handle is consumed and the substrate transaction
    /// rolls back when it drops.
    pub fn transact_entities(self, entities: &Vec<Entity>) -> (r: Result<
        InProgress<'c>,
        StoreError,
    >)
        requires
            self.wf(),
        ensures
            // The user-entid gate forces rejection: a batch naming an
            // unallocated entid fails with `UnrecognizedEntid` of such
            // an id.
            (exists|k: int|
                0 <= k < entities@.len() && !entity_e_gated(
                    #[trigger] entities@[k],
                    self.partition_map,
                )) ==> (r matches Err(e) && (e matches StoreError::DbError(
                crate::types::DbErrorKind::UnrecognizedEntid(n),
            ) && names_ungated(entities@, self.partition_map, n))),
            match r {
                Ok(ip) => {
                    &&& ip.wf()
                    &&& ip.generation == self.generation
                    // Partition advance discipline: ranges fixed, the
                    // cursors never move backwards, one transaction id
                    // is consumed.
                    &&& ip.partition_map.db == self.partition_map.db
                    &&& ip.partition_map.user.start == self.partition_map.user.start
                    &&& ip.partition_map.user.end == self.partition_map.user.end
                    &&& ip.partition_map.user.index >= self.partition_map.user.index
                    &&& ip.partition_map.tx.index == self.partition_map.tx.index + 1
                    // The report is present, names the consumed
                    // transaction id, and resolves tempids injectively;
                    // tempids were upsert-resolved or took exactly the
                    // fresh region, ascending by string.
                    &&& ip.last_report matches Some(rep) && rep.tx_id
                        == self.partition_map.tx.index && tempids_injective(rep.tempids@)
                        && tempids_allocated(
                        rep.tempids@,
                        self.schema,
                        self.partition_map,
                        ip.partition_map,
                    )
                    // Every numeric entity id the caller named was
                    // allocated before this transaction.
                    &&& forall|k: int|
                        0 <= k < entities@.len() ==> entity_e_gated(
                            #[trigger] entities@[k],
                            self.partition_map,
                        )
                    // For a batch of four-place forms, every reported
                    // tempid is one the forms mention, and an upsert
                    // happens only where the forms justify it.
                    &&& (all_vector_forms(entities@) ==> (ip.last_report matches Some(rep2) && (
                    forall|x: int|
                        0 <= x < rep2.tempids@.len() ==> mentions_tempid(
                            entities@,
                            self.schema,
                            (#[trigger] rep2.tempids@[x]).0@,
                        )) && (forall|x: int|
                        0 <= x < rep2.tempids@.len() && self.partition_map.spec_allocated(
                            (#[trigger] rep2.tempids@[x]).1,
                        ) ==> upsert_justified(entities@, self.schema, rep2.tempids@[x]))))
                },
                Err(e) => match e {
                    StoreError::DbError(crate::types::DbErrorKind::UnrecognizedEntid(n)) => !self
                        .partition_map.spec_allocated(n),
                    _ => true,
                },
            },
    {
        let ghost pre = self;
        let mut this = self;
        let instant = store::now_micros();
        let out = match transact_core(&this.partition_map, &this.schema, entities, instant) {
            Ok(out) => out,
            Err(e) => {
                return Err(e);
            },
        };
        let conn = store::tx_conn(&this.transaction);
        let mut i: usize = 0;
        while i < out.ops.len()
            invariant
                i <= out.ops@.len(),
                forall|k: int|
                    0 <= k < entities@.len() ==> entity_e_gated(
                        #[trigger] entities@[k],
                        pre.partition_map,
                    ),
                pre == self,
            decreases out.ops@.len() - i,
        {
            let op = &out.ops[i];
            let (mut sql_v, mut tag) = encode_value(&op.v);
            if op.fulltext {
                match &op.v {
                    TypedValue::Text(text) => {
                        let rowid = match store::insert_fulltext_row(conn, text.as_str()) {
                            Ok(rowid) => rowid,
                            Err(e) => {
                                return Err(store::substrate_error(&e));
                            },
                        };
                        sql_v = SqlVal::Int(rowid);
                        tag = TAG_TEXT;
                    },
                    _ => {},
                }
            }
            if op.added {
                match store::insert_datom_row(conn, op.e, op.a, &sql_v, tag, out.report.tx_id) {
                    Ok(()) => {},
                    Err(e) => {
                        return Err(store::substrate_error(&e));
                    },
                }
            } else {
                match store::delete_datom_rows(conn, op.e, op.a, &sql_v, tag) {
                    Ok(_) => {},
                    Err(e) => {
                        return Err(store::substrate_error(&e));
                    },
                }
            }
            match store::insert_tx_row(conn, op.e, op.a, &sql_v, tag, out.report.tx_id, op.added) {
                Ok(()) => {},
                Err(e) => {
                    return Err(store::substrate_error(&e));
                },
            }
            i = i + 1;
        }
        match write_parts(conn, &out.partition_map) {
            Ok(()) => {},
            Err(e) => {
                return Err(e);
            },
        }
        this.partition_map = out.partition_map;
        if out.schema_changed {
            this.schema = out.schema;
        }
        this.last_report = Some(out.report);
        Ok(this)
    }

    /// Parse the transaction text and stage it.
    pub fn transact(self, transaction: &str) -> (r: Result<InProgress<'c>, StoreError>)
        requires
            self.wf(),
        ensures
            r matches Ok(ip) ==> ip.wf() && ip.generation == self.generation
                && ip.partition_map.tx.index == self.partition_map.tx.index + 1 && (ip.last_report
                matches Some(rep) && rep.tx_id == self.partition_map.tx.index
                && tempids_injective(rep.tempids@) && tempids_allocated(
                rep.tempids@,
                self.schema,
                self.partition_map,
                ip.partition_map,
            )),
            r matches Err(e) ==> match e {
                StoreError::DbError(crate::types::DbErrorKind::UnrecognizedEntid(n)) => !self
                    .partition_map.spec_allocated(n),
                _ => true,
            },
    {
        let parsed = match crate::edn::parse(transaction) {
            Ok(v) => v,
            Err(e) => {
                return Err(e);
            },
        };
        let entities = match crate::entities::parse_entities(&parsed) {
            Ok(ents) => ents,
            Err(e) => {
                return Err(e);
            },
        };
        self.transact_entities(&entities)
    }

    /// Query the store within the open transaction: staged changes are
    /// visible, with the working schema.
    pub fn q_once(&self, query: &str) -> (r: Result<QueryResults, StoreError>)
        requires
            self.wf(),
    {
        let conn = store::tx_conn(&self.transaction);
        let rows = match store::read_datom_rows(conn) {
            Ok(rows) => rows,
            Err(e) => {
                return Err(store::substrate_error(&e));
            },
        };
        query::q_once_rows(&self.schema, query, &rows)
    }

    /// Point read within the open transaction.
    pub fn lookup_value_for_attribute(&self, entity: Entid, attribute: &Keyword) -> (r: Result<
        Option<TypedValue>,
        StoreError,
    >)
        ensures
            r matches Err(e) ==> e matches StoreError::Substrate(_),
            // An attribute keyword the working schema does not know binds
            // nothing.
            !self.schema.spec_has_entid(attribute@) ==> r == Ok::<Option<TypedValue>, StoreError>(None),
    {
        let conn = store::tx_conn(&self.transaction);
        lookup_with_schema(&self.schema, conn, entity, attribute)
    }

    /// Abort the substrate transaction and discard the staged changes.
    /// The connection is untouched: this handle holds no reference to it.
    pub fn rollback(self) -> (r: Result<(), StoreError>)
        ensures
            r matches Err(e) ==> e matches StoreError::Substrate(_),
    {
        let InProgress { transaction, .. } = self;
        match store::rollback_tx(transaction) {
            Ok(()) => Ok(()),
            Err(e) => Err(store::substrate_error(&e)),
        }
    }

    /// Commit: the critical section. Validate that no other writer
    /// advanced the connection since this transaction began, commit the
    /// substrate transaction, and install the new partition map and
    /// schema atomically with the generation increment.
    pub fn commit(self, conn: &mut Conn) -> (r: Result<Option<TxReport>, StoreError>)
        requires
            old(conn).metadata.wf(),
            self.wf(),
        ensures
            final(conn).metadata.wf(),
            match r {
                Ok(rep) => {
                    // The generation check passed and the generation
                    // advanced by exactly one.
                    &&& old(conn).metadata.generation == self.generation
                    &&& final(conn).metadata.generation == old(conn).metadata.generation + 1
                    // The new partition map and the new schema are
                    // installed together, atomically. An unchanged schema
                    // keeps its shared handle, so readers' snapshots stay
                    // shared.
                    &&& final(conn).metadata.partition_map == self.partition_map
                    &&& (*final(conn).metadata.schema).attribute_map@
                        == self.schema.attribute_map@
                    &&& ident_views_eq(
                        (*final(conn).metadata.schema).ident_map@,
                        self.schema.ident_map@,
                    )
                    // The last staged report is handed back.
                    &&& rep == self.last_report
                },
                Err(e) => {
                    // A failed commit leaves the metadata unchanged, and
                    // fails only on the race check or in the substrate.
                    &&& final(conn).metadata == old(conn).metadata
                    &&& ((e matches StoreError::LostTransactRace) <==> self.generation != old(
                        conn,
                    ).metadata.generation)
                    &&& (e matches StoreError::LostTransactRace || e
                        matches StoreError::Substrate(_))
                },
            },
    {
        if self.generation != conn.metadata.generation {
            // Somebody else wrote. A competing immediate transaction
            // would have failed to begin, so this is belt-and-braces.
            return Err(StoreError::LostTransactRace);
        }
        if conn.metadata.generation == u64::MAX {
            return Err(StoreError::Substrate(String::from_str("generation exhausted")));
        }
        let InProgress { transaction, partition_map, schema, last_report, .. } = self;
        match store::commit_tx(transaction) {
            Ok(()) => {},
            Err(e) => {
                return Err(store::substrate_error(&e));
            },
        }
        conn.metadata.generation = conn.metadata.generation + 1;
        conn.metadata.partition_map = partition_map;
        if !schema_eq(&schema, &conn.metadata.schema) {
            conn.metadata.schema = Arc::new(schema);
        }
        Ok(last_report)
    }
}

} // verus!
