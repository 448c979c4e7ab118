//! The relational substrate: the store's tables live in SQLite, reached
//! through `rusqlite`. Every call into the substrate stands here, behind
//! a trusted item; what the rows mean is decided by verified code in the
//! other modules.

use std::io::Write;
use vstd::prelude::*;

verus! {

#[verifier::external_type_specification]
#[verifier::external_body]
pub struct ExConnection(rusqlite::Connection);

#[verifier::external_type_specification]
#[verifier::external_body]
pub struct ExTransaction<'conn>(rusqlite::Transaction<'conn>);

#[verifier::external_type_specification]
#[verifier::external_body]
pub struct ExSqliteError(rusqlite::Error);

#[verifier::external_type_specification]
#[verifier::external_body]
pub struct ExRow<'stmt>(rusqlite::Row<'stmt>);

/// A plain value bound to or read from a SQLite column.
#[derive(Debug, PartialEq, Eq)]
pub enum SqlVal {
    Int(i64),
    Str(String),
}

impl Clone for SqlVal {
    fn clone(&self) -> (r: Self)
        ensures
            r == *self,
    {
        match self {
            SqlVal::Int(n) => SqlVal::Int(*n),
            SqlVal::Str(s) => SqlVal::Str(s.clone()),
        }
    }
}

/// One row of the `datoms` table.
#[derive(Debug, PartialEq, Eq)]
pub struct RawDatomRow {
    pub e: i64,
    pub a: i64,
    pub v: SqlVal,
    pub tag: i64,
    pub tx: i64,
}

/// One row of the `transactions` table.
#[derive(Debug, PartialEq, Eq)]
pub struct RawTxRow {
    pub e: i64,
    pub a: i64,
    pub v: SqlVal,
    pub tag: i64,
    pub tx: i64,
    pub added: bool,
}

/// Relies on the `Display` impl of `rusqlite::Error`: renders the
/// substrate's error message.
#[verifier::external_body]
pub(crate) fn describe_sqlite_error(e: &rusqlite::Error) -> String {
    format!("{}", e)
}

/// Turn a substrate error into the library's error.
pub(crate) fn substrate_error(e: &rusqlite::Error) -> (r: crate::types::StoreError)
    ensures
        r matches crate::types::StoreError::Substrate(_),
{
    crate::types::StoreError::Substrate(describe_sqlite_error(e))
}

/// Relies on `rusqlite::Connection::transaction_with_behavior` with
/// `TransactionBehavior::Immediate`: opens a transaction that takes the
/// substrate's write intent at once, failing if another immediate or
/// exclusive transaction is in flight. The transaction rolls back when
/// dropped; only `commit_tx` makes its writes durable.
#[verifier::external_body]
pub(crate) fn open_immediate<'c>(conn: &'c mut rusqlite::Connection) -> Result<
    rusqlite::Transaction<'c>,
    rusqlite::Error,
> {
    conn.transaction_with_behavior(rusqlite::TransactionBehavior::Immediate)
}

/// Relies on `rusqlite::Transaction::commit`: makes the transaction's
/// writes durable; on failure nothing is committed.
#[verifier::external_body]
pub(crate) fn commit_tx(tx: rusqlite::Transaction<'_>) -> Result<(), rusqlite::Error> {
    tx.commit()
}

/// Relies on `rusqlite::Transaction::rollback`: discards the
/// transaction's writes.
#[verifier::external_body]
pub(crate) fn rollback_tx(tx: rusqlite::Transaction<'_>) -> Result<(), rusqlite::Error> {
    tx.rollback()
}

/// Relies on `rusqlite::Transaction`'s `Deref` to `Connection`: reads
/// within the transaction observe its staged writes.
#[verifier::external_body]
pub(crate) fn tx_conn<'a>(tx: &'a rusqlite::Transaction<'_>) -> &'a rusqlite::Connection {
    tx
}

/// Relies on `rusqlite::Connection::execute` with no parameters: runs
/// one SQL statement.
#[verifier::external_body]
pub(crate) fn exec_sql(conn: &rusqlite::Connection, sql: &str) -> Result<usize, rusqlite::Error> {
    conn.execute(sql, ())
}

/// Relies on `rusqlite::Connection::execute`: inserts one `datoms` row.
#[verifier::external_body]
pub(crate) fn insert_datom_row(
    conn: &rusqlite::Connection,
    e: i64,
    a: i64,
    v: &SqlVal,
    tag: i64,
    tx: i64,
) -> Result<(), rusqlite::Error> {
    let sql = "INSERT INTO datoms (e, a, v, value_type_tag, tx) VALUES (?1, ?2, ?3, ?4, ?5)";
    match v {
        SqlVal::Int(n) => conn.execute(sql, (e, a, n, tag, tx))?,
        SqlVal::Str(s) => conn.execute(sql, (e, a, s.as_str(), tag, tx))?,
    };
    Ok(())
}

/// Relies on `rusqlite::Connection::execute`: deletes the `datoms` rows
/// matching the full `(e, a, v, value_type_tag)` key.
#[verifier::external_body]
pub(crate) fn delete_datom_rows(
    conn: &rusqlite::Connection,
    e: i64,
    a: i64,
    v: &SqlVal,
    tag: i64,
) -> Result<usize, rusqlite::Error> {
    let sql = "DELETE FROM datoms WHERE e = ?1 AND a = ?2 AND v = ?3 AND value_type_tag = ?4";
    match v {
        SqlVal::Int(n) => conn.execute(sql, (e, a, n, tag)),
        SqlVal::Str(s) => conn.execute(sql, (e, a, s.as_str(), tag)),
    }
}

/// Relies on `rusqlite::Connection::execute`: appends one row to the
/// `transactions` log.
#[verifier::external_body]
pub(crate) fn insert_tx_row(
    conn: &rusqlite::Connection,
    e: i64,
    a: i64,
    v: &SqlVal,
    tag: i64,
    tx: i64,
    added: bool,
) -> Result<(), rusqlite::Error> {
    let sql =
        "INSERT INTO transactions (e, a, v, value_type_tag, tx, added) VALUES (?1, ?2, ?3, ?4, ?5, ?6)";
    match v {
        SqlVal::Int(n) => conn.execute(sql, (e, a, n, tag, tx, added))?,
        SqlVal::Str(s) => conn.execute(sql, (e, a, s.as_str(), tag, tx, added))?,
    };
    Ok(())
}

/// Relies on `rusqlite::Connection::execute` and `last_insert_rowid`:
/// stores one fulltext string and returns the row id it was given.
#[verifier::external_body]
pub(crate) fn insert_fulltext_row(
    conn: &rusqlite::Connection,
    text: &str,
) -> Result<i64, rusqlite::Error> {
    conn.execute("INSERT INTO fulltext_values (text) VALUES (?1)", (text,))?;
    Ok(conn.last_insert_rowid())
}

/// Relies on `rusqlite::Connection::execute`: records a partition's
/// current range and cursor.
#[verifier::external_body]
pub(crate) fn update_part_row(
    conn: &rusqlite::Connection,
    part: &str,
    start: i64,
    end: i64,
    idx: i64,
) -> Result<(), rusqlite::Error> {
    let sql = "INSERT OR REPLACE INTO parts (part, part_start, part_end, idx) VALUES (?1, ?2, ?3, ?4)";
    conn.execute(sql, (part, start, end, idx))?;
    Ok(())
}

/// Relies on `rusqlite::Statement::query`: reads every `parts` row.
#[verifier::external_body]
pub(crate) fn read_part_rows(conn: &rusqlite::Connection) -> Result<
    Vec<(String, i64, i64, i64)>,
    rusqlite::Error,
> {
    let mut stmt = conn.prepare("SELECT part, part_start, part_end, idx FROM parts")?;
    let mut rows = stmt.query(())?;
    let mut out = Vec::new();
    while let Some(row) = rows.next()? {
        out.push((row.get(0)?, row.get(1)?, row.get(2)?, row.get(3)?));
    }
    Ok(out)
}

/// Relies on `rusqlite::Row::get_ref`: the stored column value as a
/// plain integer or text; any other storage class is refused.
#[verifier::external_body]
pub(crate) fn sqlval_at(row: &rusqlite::Row<'_>, idx: usize) -> Result<SqlVal, rusqlite::Error> {
    match row.get_ref(idx)? {
        rusqlite::types::ValueRef::Integer(n) => Ok(SqlVal::Int(n)),
        rusqlite::types::ValueRef::Text(t) => Ok(SqlVal::Str(String::from_utf8_lossy(t).into_owned())),
        _ => Err(rusqlite::Error::InvalidQuery),
    }
}

/// Relies on `rusqlite::Statement::query`: reads every `datoms` row, in
/// whatever order the substrate yields them.
#[verifier::external_body]
pub(crate) fn read_datom_rows(conn: &rusqlite::Connection) -> Result<
    Vec<RawDatomRow>,
    rusqlite::Error,
> {
    let mut stmt = conn.prepare("SELECT e, a, v, value_type_tag, tx FROM datoms")?;
    let mut rows = stmt.query(())?;
    let mut out = Vec::new();
    while let Some(row) = rows.next()? {
        let v = sqlval_at(row, 2)?;
        out.push(RawDatomRow { e: row.get(0)?, a: row.get(1)?, v, tag: row.get(3)?, tx: row.get(4)? });
    }
    Ok(out)
}

/// Relies on `rusqlite::Statement::query`: reads every `transactions`
/// row, in whatever order the substrate yields them.
#[verifier::external_body]
pub(crate) fn read_tx_rows(conn: &rusqlite::Connection) -> Result<Vec<RawTxRow>, rusqlite::Error> {
    let mut stmt = conn.prepare("SELECT e, a, v, value_type_tag, tx, added FROM transactions")?;
    let mut rows = stmt.query(())?;
    let mut out = Vec::new();
    while let Some(row) = rows.next()? {
        let v = sqlval_at(row, 2)?;
        let (e, a) = (row.get(0)?, row.get(1)?);
        out.push(RawTxRow { e, a, v, tag: row.get(3)?, tx: row.get(4)?, added: row.get(5)? });
    }
    Ok(out)
}

/// Relies on `rusqlite::Statement::query`: reads every `fulltext_values`
/// row, in whatever order the substrate yields them.
#[verifier::external_body]
pub(crate) fn read_fulltext_rows(conn: &rusqlite::Connection) -> Result<
    Vec<(i64, String)>,
    rusqlite::Error,
> {
    let mut stmt = conn.prepare("SELECT rowid, text FROM fulltext_values")?;
    let mut rows = stmt.query(())?;
    let mut out = Vec::new();
    while let Some(row) = rows.next()? {
        out.push((row.get(0)?, row.get(1)?));
    }
    Ok(out)
}

/// Relies on `rusqlite::Statement::query` and the `Debug` rendering of
/// `rusqlite::types::Value`: runs an arbitrary SQL query with text
/// parameters and yields the column names and each cell rendered in
/// debug form.
#[verifier::external_body]
pub(crate) fn query_rows_debug(
    conn: &rusqlite::Connection,
    sql: &str,
    params: &Vec<String>,
) -> Result<(Vec<String>, Vec<Vec<String>>), rusqlite::Error> {
    let mut stmt = conn.prepare(sql)?;
    let names: Vec<String> = stmt.column_names().iter().map(|s| s.to_string()).collect();
    let n = stmt.column_count();
    let mut rows = stmt.query(rusqlite::params_from_iter(params.iter()))?;
    let mut out = Vec::new();
    while let Some(row) = rows.next()? {
        let mut cells = Vec::new();
        for i in 0..n {
            let value: rusqlite::types::Value = row.get(i)?;
            cells.push(format!("{:?}", value));
        }
        out.push(cells);
    }
    Ok((names, out))
}

/// Relies on `std::time::SystemTime::now`: microseconds since the epoch;
/// nothing is promised of the clock.
#[verifier::external_body]
pub(crate) fn now_micros() -> i64 {
    match std::time::SystemTime::now().duration_since(std::time::UNIX_EPOCH) {
        Ok(d) => d.as_micros() as i64,
        Err(_) => 0,
    }
}

/// What `tabwriter` makes of a tab-and-newline table: the same text with
/// each column padded to align. The result depends on the input alone.
pub uninterp spec fn tab_aligned(s: Seq<char>) -> Seq<char>;

/// Relies on `tabwriter::TabWriter` with padding 2: aligns the
/// tab-separated columns of `s`.
#[verifier::external_body]
pub(crate) fn tab_align(s: &str) -> (r: String)
    ensures
        r@ == tab_aligned(s@),
{
    let mut tw = tabwriter::TabWriter::new(Vec::new()).padding(2);
    let _ = tw.write_all(s.as_bytes());
    let _ = tw.flush();
    String::from_utf8(tw.into_inner().unwrap_or_default()).unwrap_or_default()
}

} // verus!
