use vstd::prelude::*;

use crate::history::ClipboardItem;
use crate::model::{ids_distinct, row_of, sorted_desc, ItemModel, RowModel};

verus! {

/// rusqlite's connection handle, declared so that it can stand in fields and
/// signatures; what it holds is reached only through `table_rows`.
#[verifier::external_type_specification]
#[verifier::external_body]
pub struct ExConnection(rusqlite::Connection);

/// rusqlite's error type; the wrappers hand it out and verified code maps it
/// to `StoreError`.
#[verifier::external_type_specification]
#[verifier::external_body]
pub struct ExSqlError(rusqlite::Error);

/// How a failure of the durable store is reported: the schema could not be
/// brought up or read, or a write did not go through. Both are distinct from
/// a policy skip, which is no error at all.
#[derive(Debug, Clone, Copy, PartialEq, Eq, Structural)]
pub enum StoreError {
    Unavailable,
    WriteFailed,
}

/// The rows of the clipboard table behind a connection, keyed by identifier;
/// empty while the table does not exist.
pub uninterp spec fn table_rows(db: rusqlite::Connection) -> Map<Seq<char>, RowModel>;

/// The view of each entry in a sequence.
pub open spec fn models(s: Seq<ClipboardItem>) -> Seq<ItemModel> {
    s.map_values(|it: ClipboardItem| it@)
}

/// Relies on `rusqlite::Connection::execute` running `CREATE TABLE IF NOT
/// EXISTS`: it leaves every existing row in place, and a table it creates is
/// empty; a SQLite statement that fails changes nothing. A table holds
/// finitely many rows.
#[verifier::external_body]
pub(crate) fn store_create_table(db: &mut rusqlite::Connection) -> (r: Result<
    (),
    rusqlite::Error,
>)
    ensures
        table_rows(*final(db)) == table_rows(*old(db)),
        r is Ok ==> table_rows(*final(db)).dom().finite(),
{
    match db.execute(
        "CREATE TABLE IF NOT EXISTS clipboard_items (
            id TEXT PRIMARY KEY,
            content TEXT NOT NULL,
            timestamp INTEGER NOT NULL)",
        [],
    ) {
        Ok(_) => Ok(()),
        Err(e) => Err(e),
    }
}

/// Relies on `rusqlite::Connection::execute` running a plain `INSERT`: on
/// success the table gains exactly this row, and the `id TEXT PRIMARY KEY`
/// column makes an insertion under an identifier already present fail; a
/// SQLite statement that fails changes nothing.
#[verifier::external_body]
pub(crate) fn store_insert(
    db: &mut rusqlite::Connection,
    id: &str,
    content: &str,
    captured_at: i64,
) -> (r: Result<(), rusqlite::Error>)
    ensures
        r is Ok ==> !table_rows(*old(db)).contains_key(id@) && table_rows(*final(db))
            == table_rows(*old(db)).insert(
            id@,
            RowModel { content: content@, captured_at: captured_at as int },
        ),
        r is Err ==> table_rows(*final(db)) == table_rows(*old(db)),
{
    match db.execute(
        "INSERT INTO clipboard_items (id, content, timestamp) VALUES (?1, ?2, ?3)",
        (id, content, captured_at),
    ) {
        Ok(_) => Ok(()),
        Err(e) => Err(e),
    }
}

/// Relies on `rusqlite::Connection::execute` running `DELETE ... WHERE id =
/// ?`: it removes at most that one row and succeeds also when the row is
/// absent; a SQLite statement that fails changes nothing.
#[verifier::external_body]
pub(crate) fn store_delete(db: &mut rusqlite::Connection, id: &str) -> (r: Result<
    (),
    rusqlite::Error,
>)
    ensures
        r is Ok ==> table_rows(*final(db)) == table_rows(*old(db)).remove(id@),
        r is Err ==> table_rows(*final(db)) == table_rows(*old(db)),
{
    match db.execute("DELETE FROM clipboard_items WHERE id = ?1", (id,)) {
        Ok(_) => Ok(()),
        Err(e) => Err(e),
    }
}

/// Relies on `rusqlite::Connection::execute` running `DELETE` without a
/// `WHERE` clause: one atomic statement that leaves the table empty; a SQLite
/// statement that fails changes nothing.
#[verifier::external_body]
pub(crate) fn store_delete_all(db: &mut rusqlite::Connection) -> (r: Result<
    (),
    rusqlite::Error,
>)
    ensures
        r is Ok ==> table_rows(*final(db)) == crate::model::no_rows(),
        r is Err ==> table_rows(*final(db)) == table_rows(*old(db)),
{
    match db.execute("DELETE FROM clipboard_items", []) {
        Ok(_) => Ok(()),
        Err(e) => Err(e),
    }
}

/// What a recency-ordered `SELECT ... ORDER BY timestamp DESC LIMIT ?`
/// returns: rows of the table under pairwise-distinct identifiers, capture
/// times never increasing, never more than `limit` of them, and the whole
/// table when it fits under the limit.
pub open spec fn recent_rows(
    m: Map<Seq<char>, RowModel>,
    limit: int,
    out: Seq<ItemModel>,
) -> bool {
    &&& out.len() <= limit
    &&& ids_distinct(out)
    &&& sorted_desc(out)
    &&& forall|i: int|
        0 <= i < out.len() ==> m.contains_key(#[trigger] out[i].id) && m[out[i].id] == row_of(
            out[i],
        )
    &&& (m.dom().finite() && m.dom().len() <= limit ==> out.len() == m.dom().len())
    &&& (m.dom().finite() && m.dom().len() <= limit ==> forall|k: Seq<char>|
        #[trigger] m.contains_key(k) ==> exists|i: int| 0 <= i < out.len() && out[i].id == k)
}

/// Relies on `rusqlite::Connection::prepare` and `Statement::query_map` over
/// `SELECT id, content, timestamp FROM clipboard_items ORDER BY timestamp
/// DESC LIMIT ?`: the most recent rows of the table, most recent first.
#[verifier::external_body]
pub(crate) fn store_load_recent(db: &rusqlite::Connection, limit: usize) -> (r: Result<
    Vec<ClipboardItem>,
    rusqlite::Error,
>)
    requires
        limit <= i64::MAX,
    ensures
        r matches Ok(v) ==> recent_rows(table_rows(*db), limit as int, models(v@)),
{
    let mut stmt = db.prepare(
        "SELECT id, content, timestamp FROM clipboard_items ORDER BY timestamp DESC LIMIT ?1",
    )?;
    let rows = stmt.query_map((limit as i64,), |row| {
        Ok(ClipboardItem { id: row.get(0)?, content: row.get(1)?, timestamp: row.get(2)? })
    })?;
    let mut out = Vec::new();
    for row in rows {
        out.push(row?);
    }
    Ok(out)
}

} // verus!
