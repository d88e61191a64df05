use vstd::prelude::*;
use crate::search::{
    blob_matches, distinct_paths, opt_view, parse_tags, sort_results, spec_blob_match,
    spec_parse_tags, spec_parse_tags_opt, spec_res_le, spec_sorted_results, spec_split_query,
    split_query, SearchDetails, SearchField, SearchRecord, SearchResult, SearchStatus,
    status_eq_spec,
};
use crate::strutil::str_to_chars;
use rusqlite::OptionalExtension;

verus! {

#[verifier::external_type_specification]
#[verifier::external_body]
pub struct ExConnection(rusqlite::Connection);

/// One row of the script-record table.
#[derive(Debug)]
pub struct StoreRow {
    pub script_path: String,
    pub display_name: String,
    pub description: Option<String>,
    pub tags_raw: Option<String>,
    pub search_blob: String,
    pub schema_error: Option<String>,
    pub indexed_at: i64,
}

/// The model of one stored record: display name, description, raw tags,
/// search blob, schema error and index time.
pub type RecV = (Seq<char>, Option<Seq<char>>, Option<Seq<char>>, Seq<char>, Option<Seq<char>>, int);

/// The model of one stored field row: name, prompt, kind, required.
pub type FieldV = (Seq<char>, Option<Seq<char>>, Seq<char>, bool);

/// The script records a store holds, keyed by script path.
pub uninterp spec fn db_recs(conn: rusqlite::Connection) -> Map<Seq<char>, RecV>;

/// A store with no record rows.
pub open spec fn empty_recs() -> Map<Seq<char>, RecV> {
    Map::empty()
}

/// The ordered field rows a store holds, keyed by script path.
pub uninterp spec fn db_fields(conn: rusqlite::Connection) -> Map<Seq<char>, Seq<FieldV>>;

/// Whether the connection has an open transaction.
pub uninterp spec fn tx_open(conn: rusqlite::Connection) -> bool;

/// The script records a rollback would leave: the rows as of the open
/// transaction's start, or the current rows when none is open.
pub uninterp spec fn db_recs_snapshot(conn: rusqlite::Connection) -> Map<Seq<char>, RecV>;

/// The field rows a rollback would leave, read as `db_recs_snapshot`.
pub uninterp spec fn db_fields_snapshot(conn: rusqlite::Connection) -> Map<Seq<char>, Seq<FieldV>>;

/// A store with no field rows.
pub open spec fn empty_fields() -> Map<Seq<char>, Seq<FieldV>> {
    Map::empty()
}

pub open spec fn row_v(r: StoreRow) -> RecV {
    (
        r.display_name@,
        opt_view(&r.description),
        opt_view(&r.tags_raw),
        r.search_blob@,
        opt_view(&r.schema_error),
        r.indexed_at as int,
    )
}

pub open spec fn rec_v(r: SearchRecord) -> RecV {
    (
        r.display_name@,
        opt_view(&r.description),
        opt_view(&r.tags_raw),
        r.search_blob@,
        opt_view(&r.schema_error),
        r.indexed_at as int,
    )
}

pub open spec fn field_v(f: SearchField) -> FieldV {
    (f.name@, opt_view(&f.prompt), f.kind@, f.required)
}

pub open spec fn fields_v(fs: Seq<SearchField>) -> Seq<FieldV> {
    fs.map_values(|f: SearchField| field_v(f))
}

/// The record map that rebuilding from `rs` leaves behind: each record
/// under its path, later entries replacing earlier ones.
pub open spec fn recs_map(rs: Seq<SearchRecord>) -> Map<Seq<char>, RecV>
    decreases rs.len(),
{
    if rs.len() == 0 {
        Map::empty()
    } else {
        recs_map(rs.drop_last()).insert(rs.last().script_path@, rec_v(rs.last()))
    }
}

/// The field map that rebuilding from `rs` leaves behind.
pub open spec fn fieldses_map(rs: Seq<SearchRecord>) -> Map<Seq<char>, Seq<FieldV>>
    decreases rs.len(),
{
    if rs.len() == 0 {
        Map::empty()
    } else {
        fieldses_map(rs.drop_last()).insert(rs.last().script_path@, fields_v(rs.last().fields@))
    }
}

/// Relies on `rusqlite::Connection::open_in_memory`: a fresh in-memory
/// database holds no rows of any table.
#[verifier::external_body]
fn open_memory_store() -> (r: Result<rusqlite::Connection, String>)
    ensures
        r matches Ok(c) ==> db_recs(c) == empty_recs() && db_fields(c) == empty_fields(),
{
    rusqlite::Connection::open_in_memory().map_err(|e| format!("Open search db failed: {}", e))
}

/// Relies on `rusqlite::Connection::open` and `busy_timeout`, and on the
/// journal-mode pragma: opens the database file, creating it when absent,
/// with a bounded lock wait and write-ahead logging. The file may already
/// hold records, so nothing is said of the contents.
#[verifier::external_body]
fn open_file_store(path: &str) -> (r: Result<rusqlite::Connection, String>) {
    let conn = rusqlite::Connection::open(path).map_err(
        |e| format!("Open search db failed: {}", e),
    )?;
    conn.busy_timeout(std::time::Duration::from_millis(500)).map_err(
        |e| format!("Search db busy timeout failed: {}", e),
    )?;
    let _mode: String = conn.query_row("PRAGMA journal_mode = WAL", (), |row| row.get(0)).map_err(
        |e| format!("Enable WAL failed: {}", e),
    )?;
    Ok(conn)
}

/// Relies on `rusqlite::Connection::execute_batch`: creates the record
/// and field tables and their indexes where they do not exist yet, which
/// adds and removes no row.
#[verifier::external_body]
fn init_store(conn: &rusqlite::Connection) -> (r: Result<(), String>) {
    conn.execute_batch(
        "CREATE TABLE IF NOT EXISTS script_index (script_path TEXT PRIMARY KEY, display_name TEXT NOT NULL, description TEXT, tags TEXT, search_blob TEXT NOT NULL, schema_error TEXT, indexed_at INTEGER NOT NULL); CREATE TABLE IF NOT EXISTS script_fields (script_path TEXT NOT NULL, field_order INTEGER NOT NULL, name TEXT, prompt TEXT, kind TEXT, required INTEGER NOT NULL, FOREIGN KEY(script_path) REFERENCES script_index(script_path) ON DELETE CASCADE); CREATE INDEX IF NOT EXISTS idx_script_search ON script_index(search_blob); CREATE INDEX IF NOT EXISTS idx_script_fields ON script_fields(script_path);",
    ).map_err(|e| format!("Init search db failed: {}", e))
}

/// Relies on `rusqlite::Connection::execute_batch`: starts a write
/// transaction, which changes no row and makes the current rows what a
/// rollback would restore; a refused `BEGIN` changes no row either.
#[verifier::external_body]
fn store_begin(conn: &mut rusqlite::Connection) -> (r: Result<(), String>)
    ensures
        db_recs(*final(conn)) == db_recs(*old(conn)),
        db_fields(*final(conn)) == db_fields(*old(conn)),
        r matches Ok(()) ==> tx_open(*final(conn)),
        r matches Ok(()) ==> db_recs_snapshot(*final(conn)) == db_recs(*old(conn)),
        r matches Ok(()) ==> db_fields_snapshot(*final(conn)) == db_fields(*old(conn)),
{
    conn.execute_batch("BEGIN IMMEDIATE").map_err(|e| format!("Begin transaction failed: {}", e))
}

/// Relies on `rusqlite::Connection::execute_batch`: commits the open
/// transaction, keeping every row it wrote. A refused `COMMIT` either
/// leaves the transaction open or rolls it back, so what a rollback
/// would leave is unchanged.
#[verifier::external_body]
fn store_commit(conn: &mut rusqlite::Connection) -> (r: Result<(), String>)
    ensures
        r matches Ok(()) ==> db_recs(*final(conn)) == db_recs(*old(conn)),
        r matches Ok(()) ==> db_fields(*final(conn)) == db_fields(*old(conn)),
        r matches Err(e) && tx_open(*old(conn)) ==> db_recs_snapshot(*final(conn)) == db_recs_snapshot(*old(conn)),
        r matches Err(e) && tx_open(*old(conn)) ==> db_fields_snapshot(*final(conn)) == db_fields_snapshot(*old(conn)),
{
    conn.execute_batch("COMMIT").map_err(|e| format!("Commit search index failed: {}", e))
}

/// Relies on `rusqlite::Connection::execute_batch`: abandons the open
/// transaction, restoring the rows it started from. rusqlite finalizes
/// every statement it runs, so an open transaction's `ROLLBACK` is not
/// refused for active statements; with no transaction open the statement
/// is refused and the rows, already the snapshot, stay.
#[verifier::external_body]
fn store_rollback(conn: &mut rusqlite::Connection) -> (r: Result<(), String>)
    ensures
        db_recs(*final(conn)) == db_recs_snapshot(*old(conn)),
        db_fields(*final(conn)) == db_fields_snapshot(*old(conn)),
{
    conn.execute_batch("ROLLBACK").map_err(|e| format!("Rollback failed: {}", e))
}

/// Relies on `rusqlite::Connection::execute_batch`: deletes every field
/// row and every record row. Inside an open transaction the rows a
/// rollback would restore are untouched, whether the statements succeed,
/// fail, or fail so hard the transaction rolls itself back.
#[verifier::external_body]
fn store_clear_all(conn: &mut rusqlite::Connection) -> (r: Result<(), String>)
    ensures
        r matches Ok(()) ==> db_recs(*final(conn)) == empty_recs(),
        r matches Ok(()) ==> db_fields(*final(conn)) == empty_fields(),
        tx_open(*old(conn)) ==> db_recs_snapshot(*final(conn)) == db_recs_snapshot(*old(conn)),
        tx_open(*old(conn)) ==> db_fields_snapshot(*final(conn)) == db_fields_snapshot(*old(conn)),
        r matches Ok(()) && tx_open(*old(conn)) ==> tx_open(*final(conn)),
{
    conn.execute_batch("DELETE FROM script_fields; DELETE FROM script_index;").map_err(
        |e| format!("Clear search index failed: {}", e),
    )
}

/// Relies on `rusqlite::Connection::execute`: replaces the record row
/// under the record's path and rewrites its field rows in declaration
/// order. Inside an open transaction the rows a rollback would restore
/// are untouched, whether the statements succeed or fail.
#[verifier::external_body]
fn store_insert(conn: &mut rusqlite::Connection, rec: &SearchRecord) -> (r: Result<(), String>)
    ensures
        r matches Ok(()) ==> db_recs(*final(conn)) == db_recs(*old(conn)).insert(rec.script_path@, rec_v(*rec)),
        r matches Ok(()) ==> db_fields(*final(conn)) == db_fields(*old(conn)).insert(rec.script_path@, fields_v(rec.fields@)),
        tx_open(*old(conn)) ==> db_recs_snapshot(*final(conn)) == db_recs_snapshot(*old(conn)),
        tx_open(*old(conn)) ==> db_fields_snapshot(*final(conn)) == db_fields_snapshot(*old(conn)),
        r matches Ok(()) && tx_open(*old(conn)) ==> tx_open(*final(conn)),
{
    conn.execute("DELETE FROM script_fields WHERE script_path = ?1", (&rec.script_path,)).map_err(
        |e| format!("Clear fields failed: {}", e),
    )?;
    conn.execute(
        "INSERT OR REPLACE INTO script_index (script_path, display_name, description, tags, search_blob, schema_error, indexed_at) VALUES (?1,?2,?3,?4,?5,?6,?7)",
        (&rec.script_path, &rec.display_name, &rec.description, &rec.tags_raw, &rec.search_blob, &rec.schema_error, rec.indexed_at),
    ).map_err(|e| format!("Insert script failed: {}", e))?;
    for (i, f) in rec.fields.iter().enumerate() {
        conn.execute(
            "INSERT INTO script_fields (script_path, field_order, name, prompt, kind, required) VALUES (?1,?2,?3,?4,?5,?6)",
            (&rec.script_path, i as i64, &f.name, &f.prompt, &f.kind, if f.required { 1i64 } else { 0i64 }),
        ).map_err(|e| format!("Insert field failed: {}", e))?;
    }
    Ok(())
}

/// Relies on `rusqlite::Connection::prepare` and `Statement::query_map`:
/// returns every record row, each path once, every stored path among
/// them.
#[verifier::external_body]
fn store_select_records(conn: &rusqlite::Connection) -> (r: Result<Vec<StoreRow>, String>)
    ensures
        r matches Ok(rows) ==> forall|i: int| 0 <= i < rows@.len() ==> #[trigger] db_recs(*conn).contains_pair(rows@[i].script_path@, row_v(rows@[i])),
        r matches Ok(rows) ==> forall|p: Seq<char>| #[trigger] db_recs(*conn).dom().contains(p) ==> exists|i: int| 0 <= i < rows@.len() && rows@[i].script_path@ == p,
        r matches Ok(rows) ==> forall|i: int, j: int| 0 <= i < j < rows@.len() ==> rows@[i].script_path@ != rows@[j].script_path@,
{
    let mut stmt = conn.prepare(
        "SELECT script_path, display_name, description, tags, search_blob, schema_error, indexed_at FROM script_index",
    ).map_err(|e| format!("Search prepare failed: {}", e))?;
    let rows = stmt.query_map((), |row| {
        Ok(StoreRow { script_path: row.get(0)?, display_name: row.get(1)?, description: row.get(2)?, tags_raw: row.get(3)?, search_blob: row.get(4)?, schema_error: row.get(5)?, indexed_at: row.get(6)? })
    }).map_err(|e| format!("Search query failed: {}", e))?;
    let mut out = Vec::new();
    for row in rows {
        out.push(row.map_err(|e| format!("Search row failed: {}", e))?);
    }
    Ok(out)
}

/// Relies on `rusqlite::Connection::prepare`, `Statement::query_map` and
/// `OptionalExtension::optional`: returns the record row stored under
/// the path, or nothing when there is none.
#[verifier::external_body]
fn store_select_one(conn: &rusqlite::Connection, path: &str) -> (r: Result<
    Option<StoreRow>,
    String,
>)
    ensures
        r matches Ok(Some(row)) ==> db_recs(*conn).contains_pair(path@, row_v(row)) && row.script_path@ == path@,
        r matches Ok(None) ==> !db_recs(*conn).dom().contains(path@),
{
    let mut stmt = conn.prepare(
        "SELECT script_path, display_name, description, tags, search_blob, schema_error, indexed_at FROM script_index WHERE script_path = ?1",
    ).map_err(|e| format!("Search detail prepare failed: {}", e))?;
    stmt.query_row((path,), |row| {
        Ok(StoreRow { script_path: row.get(0)?, display_name: row.get(1)?, description: row.get(2)?, tags_raw: row.get(3)?, search_blob: row.get(4)?, schema_error: row.get(5)?, indexed_at: row.get(6)? })
    }).optional().map_err(|e| format!("Search detail query failed: {}", e))
}

/// Relies on `rusqlite::Connection::prepare` and `Statement::query_map`:
/// returns the field rows stored under the path, ordered by their stored
/// order, and none when the path is absent. Every store this library
/// writes gives a script's rows the distinct orders 0 and up; in a
/// foreign file with tied orders, `db_fields` reads as whatever tie
/// order the engine settles on.
#[verifier::external_body]
fn store_select_fields(conn: &rusqlite::Connection, path: &str) -> (r: Result<
    Vec<SearchField>,
    String,
>)
    ensures
        r matches Ok(fs) ==> (db_fields(*conn).dom().contains(path@) ==> fields_v(fs@) == db_fields(*conn)[path@]),
        r matches Ok(fs) ==> (!db_fields(*conn).dom().contains(path@) ==> fs@.len() == 0),
{
    let mut stmt = conn.prepare(
        "SELECT name, prompt, kind, required FROM script_fields WHERE script_path = ?1 ORDER BY field_order",
    ).map_err(|e| format!("Search fields prepare failed: {}", e))?;
    let rows = stmt.query_map((path,), |row| {
        Ok(SearchField { name: row.get(0)?, prompt: row.get(1)?, kind: row.get(2)?, required: row.get::<_, i64>(3)? != 0 })
    }).map_err(|e| format!("Search fields query failed: {}", e))?;
    let mut out = Vec::new();
    for row in rows {
        out.push(row.map_err(|e| format!("Search field row failed: {}", e))?);
    }
    Ok(out)
}

} // verus!

verus! {

/// Copy an optional string.
pub fn clone_opt_string(o: &Option<String>) -> (r: Option<String>)
    ensures
        r == *o,
        opt_view(&r) == opt_view(o),
{
    match o {
        Some(s) => Some(s.clone()),
        None => None,
    }
}

/// Whether a query result row reads back the stored record `v` under
/// path `p`.
pub open spec fn res_match_rec(res: SearchResult, p: Seq<char>, v: RecV) -> bool {
    &&& res.script_path@ == p
    &&& res.display_name@ == v.0
    &&& opt_view(&res.description) == v.1
    &&& res.tags.deep_view() == spec_parse_tags_opt(v.2)
    &&& opt_view(&res.schema_error) == v.4
}

/// Whether one returned result is backed by a stored record that the
/// query tokens match.
pub open spec fn query_elem_ok(m: Map<Seq<char>, RecV>, toks: Seq<Seq<char>>, res: SearchResult) -> bool {
    &&& m.dom().contains(res.script_path@)
    &&& res_match_rec(res, res.script_path@, m[res.script_path@])
    &&& spec_blob_match(m[res.script_path@].3, toks)
}

/// Whether a details view reads back the stored record `v`.
pub open spec fn details_match(d: SearchDetails, v: RecV) -> bool {
    &&& d.display_name@ == v.0
    &&& opt_view(&d.description) == v.1
    &&& d.tags.deep_view() == spec_parse_tags_opt(v.2)
    &&& opt_view(&d.schema_error) == v.4
}

/// What a completed query returns, given the store's record map and the
/// query text: exactly the records whose blob holds every token, read
/// back faithfully, each script once, in display order.
pub open spec fn query_post(m: Map<Seq<char>, RecV>, q: Seq<char>, res: Seq<SearchResult>) -> bool {
    &&& forall|i: int| 0 <= i < res.len() ==> query_elem_ok(m, spec_split_query(q), #[trigger] res[i])
    &&& forall|p: Seq<char>| (#[trigger] m.dom().contains(p) && spec_blob_match(m[p].3, spec_split_query(q))) ==> exists|i: int| 0 <= i < res.len() && res[i].script_path@ == p
    &&& spec_sorted_results(res)
    &&& distinct_paths(res)
}

/// The paths a query with the given tokens returns from a store with
/// record map `m`.
pub open spec fn spec_query_matches(m: Map<Seq<char>, RecV>, toks: Seq<Seq<char>>) -> Set<Seq<char>> {
    Set::new(|p: Seq<char>| m.dom().contains(p) && spec_blob_match(m[p].3, toks))
}

/// Rebuilding from equal record lists leaves equal record and field maps
/// and equal query outcomes for every token list: a rebuild with no
/// catalog change is idempotent.
pub proof fn lemma_rebuild_idempotent(r1: Seq<SearchRecord>, r2: Seq<SearchRecord>, toks: Seq<Seq<char>>)
    requires
        r1 == r2,
    ensures
        recs_map(r1) == recs_map(r2),
        fieldses_map(r1) == fieldses_map(r2),
        spec_query_matches(recs_map(r1), toks) == spec_query_matches(recs_map(r2), toks),
{
}

/// A path no record carries is absent from the rebuilt store and from
/// every query outcome: removing a script and rebuilding removes it from
/// subsequent queries.
pub proof fn lemma_removed_script_gone(rs: Seq<SearchRecord>, p: Seq<char>, toks: Seq<Seq<char>>)
    requires
        forall|i: int| 0 <= i < rs.len() ==> (#[trigger] rs[i].script_path@) != p,
    ensures
        !recs_map(rs).dom().contains(p),
        !spec_query_matches(recs_map(rs), toks).contains(p),
    decreases rs.len(),
{
    if rs.len() > 0 {
        assert forall|i: int|
            0 <= i < rs.drop_last().len() implies (#[trigger] rs.drop_last()[i].script_path@)
            != p by {
            assert(rs.drop_last()[i] == rs[i]);
        }
        lemma_removed_script_gone(rs.drop_last(), p, toks);
        assert(rs.last().script_path@ != p);
    }
}

/// The persisted, rebuildable search index over the catalog: a store of
/// one record per script plus its ordered fields, and the status that
/// the session polls.
pub struct SearchIndex {
    pub conn: rusqlite::Connection,
    pub status: SearchStatus,
}

impl SearchIndex {
    /// Open (or create) the file-backed store and make sure its tables
    /// exist.
    pub fn new(db_path: &str) -> (r: Result<SearchIndex, String>)
        ensures
            r matches Ok(s) ==> s.status is Idle,
    {
        let conn = match open_file_store(db_path) {
            Ok(conn) => conn,
            Err(e) => {
                return Err(e);
            },
        };
        if let Err(e) = init_store(&conn) {
            return Err(e);
        }
        Ok(SearchIndex { conn, status: SearchStatus::Idle })
    }

    /// An empty in-memory store.
    pub fn new_in_memory() -> (r: Result<SearchIndex, String>)
        ensures
            r matches Ok(s) ==> s.status is Idle && db_recs(s.conn) == empty_recs() && db_fields(s.conn) == empty_fields(),
    {
        let conn = match open_memory_store() {
            Ok(conn) => conn,
            Err(e) => {
                return Err(e);
            },
        };
        if let Err(e) = init_store(&conn) {
            return Err(e);
        }
        Ok(SearchIndex { conn, status: SearchStatus::Idle })
    }

    /// The current rebuild status.
    pub fn status(&self) -> (r: SearchStatus)
        ensures
            status_eq_spec(&r, &self.status),
    {
        self.status.duplicate()
    }

    pub fn set_status(&mut self, status: SearchStatus)
        ensures
            final(self).status == status,
            final(self).conn == old(self).conn,
    {
        self.status = status;
    }

    /// Replace the whole store with one generation built from `records`,
    /// inside a single transaction, and return how many scripts it
    /// holds. A failed rebuild leaves the previous generation in place.
    pub fn rebuild_from(&mut self, records: &Vec<SearchRecord>) -> (r: Result<usize, String>)
        ensures
            final(self).status == old(self).status,
            r matches Ok(n) ==> n == records@.len(),
            r matches Ok(n) ==> db_recs(final(self).conn) == recs_map(records@),
            r matches Ok(n) ==> db_fields(final(self).conn) == fieldses_map(records@),
            r is Err ==> db_recs(final(self).conn) == db_recs(old(self).conn),
            r is Err ==> db_fields(final(self).conn) == db_fields(old(self).conn),
    {
        let ghost pre_recs = db_recs(self.conn);
        let ghost pre_fields = db_fields(self.conn);
        if let Err(e) = store_begin(&mut self.conn) {
            return Err(e);
        }
        if let Err(e) = store_clear_all(&mut self.conn) {
            let _ = store_rollback(&mut self.conn);
            return Err(e);
        }
        let n = records.len();
        let mut i: usize = 0;
        proof {
            assert(records@.take(0) =~= Seq::<SearchRecord>::empty());
        }
        while i < n
            invariant
                n == records@.len(),
                i <= n,
                db_recs(self.conn) == recs_map(records@.take(i as int)),
                db_fields(self.conn) == fieldses_map(records@.take(i as int)),
                tx_open(self.conn),
                db_recs_snapshot(self.conn) == pre_recs,
                db_fields_snapshot(self.conn) == pre_fields,
                pre_recs == db_recs(old(self).conn),
                pre_fields == db_fields(old(self).conn),
                self.status == old(self).status,
            decreases n - i,
        {
            if let Err(e) = store_insert(&mut self.conn, &records[i]) {
                let _ = store_rollback(&mut self.conn);
                return Err(e);
            }
            proof {
                assert(records@.take(i + 1).drop_last() =~= records@.take(i as int));
                assert(records@.take(i + 1).last() == records@[i as int]);
            }
            i = i + 1;
        }
        if let Err(e) = store_commit(&mut self.conn) {
            let _ = store_rollback(&mut self.conn);
            return Err(e);
        }
        proof {
            assert(records@.take(n as int) =~= records@);
        }
        Ok(n)
    }

    /// Run a query: tokenize and lowercase it, keep every stored record
    /// whose blob holds all tokens, and return them in display order.
    pub fn query(&self, query: &str) -> (r: Result<Vec<SearchResult>, String>)
        ensures
            r matches Ok(res) ==> query_post(db_recs(self.conn), query@, res@),
    {
        let tokens = split_query(query);
        let rows = match store_select_records(&self.conn) {
            Ok(rows) => rows,
            Err(e) => {
                return Err(e);
            },
        };
        let ghost m = db_recs(self.conn);
        let ghost toks = spec_split_query(query@);
        let mut kept: Vec<SearchResult> = Vec::new();
        let nrows = rows.len();
        let mut i: usize = 0;
        while i < nrows
            invariant
                nrows == rows@.len(),
                i <= nrows,
                m == db_recs(self.conn),
                toks == spec_split_query(query@),
                tokens.deep_view() == toks,
                forall|k: int| 0 <= k < rows@.len() ==> #[trigger] db_recs(self.conn).contains_pair(rows@[k].script_path@, row_v(rows@[k])),
                forall|k: int, l: int| 0 <= k < l < rows@.len() ==> (#[trigger] rows@[k].script_path@) != (#[trigger] rows@[l].script_path@),
                forall|a: int| 0 <= a < kept@.len() ==> query_elem_ok(m, toks, #[trigger] kept@[a]),
                forall|a: int| 0 <= a < kept@.len() ==> exists|k: int| 0 <= k < i && (#[trigger] kept@[a].script_path@) == rows@[k].script_path@,
                distinct_paths(kept@),
                forall|k: int| 0 <= k < i && spec_blob_match(row_v(#[trigger] rows@[k]).3, toks) ==> exists|a: int| 0 <= a < kept@.len() && kept@[a].script_path@ == rows@[k].script_path@,
            decreases nrows - i,
        {
            let ghost kept0 = kept@;
            let row = &rows[i];
            let blob = str_to_chars(row.search_blob.as_str());
            if blob_matches(&blob, &tokens) {
                let resv = SearchResult {
                    script_path: row.script_path.clone(),
                    display_name: row.display_name.clone(),
                    description: clone_opt_string(&row.description),
                    tags: parse_tags(&row.tags_raw),
                    schema_error: clone_opt_string(&row.schema_error),
                };
                proof {
                    assert(db_recs(self.conn).contains_pair(
                        rows@[i as int].script_path@,
                        row_v(rows@[i as int]),
                    ));
                    assert(m[rows@[i as int].script_path@] == row_v(rows@[i as int]));
                    assert(query_elem_ok(m, toks, resv));
                }
                proof {
                    assert forall|a: int| 0 <= a < kept@.len() implies (#[trigger] kept@[a].script_path@) != rows@[i as int].script_path@ by {
                        let k = choose|k: int| 0 <= k < i && kept@[a].script_path@ == rows@[k].script_path@;
                        assert(rows@[k].script_path@ != rows@[i as int].script_path@);
                    }
                }
                kept.push(resv);
                proof {
                    assert(kept@[kept@.len() - 1].script_path@ == rows@[i as int].script_path@);
                    assert(distinct_paths(kept@)) by {
                        assert(forall|a: int| 0 <= a < kept0.len() ==> kept@[a] == kept0[a]);
                    }
                    assert forall|a: int| 0 <= a < kept@.len() implies exists|k: int| 0 <= k < i + 1 && (#[trigger] kept@[a].script_path@) == rows@[k].script_path@ by {
                        if a < kept@.len() - 1 {
                            let k = choose|k: int| 0 <= k < i && kept0[a].script_path@ == rows@[k].script_path@;
                            assert(kept@[a].script_path@ == rows@[k].script_path@);
                        } else {
                            assert(kept@[a].script_path@ == rows@[i as int].script_path@);
                        }
                    }
                }
            } else {
                proof {
                    assert(blob@ == row_v(rows@[i as int]).3);
                    assert(!spec_blob_match(row_v(rows@[i as int]).3, toks));
                }
            }
            proof {
                assert forall|k: int|
                    0 <= k < i + 1 && spec_blob_match(
                        row_v(#[trigger] rows@[k]).3,
                        toks,
                    ) implies exists|a: int|
                    0 <= a < kept@.len() && kept@[a].script_path@ == rows@[k].script_path@ by {
                    if k < i {
                        let a = choose|a: int|
                            0 <= a < kept0.len() && kept0[a].script_path@
                                == rows@[k].script_path@;
                        assert(kept@[a].script_path@ == rows@[k].script_path@);
                    } else {
                        assert(kept@[kept@.len() - 1].script_path@ == rows@[k].script_path@);
                    }
                }
            }
            i = i + 1;
        }
        let ghost keptg = kept@;
        let sorted = sort_results(kept);
        proof {
            broadcast use vstd::seq_lib::group_to_multiset_ensures;

            assert forall|j: int| 0 <= j < sorted@.len() implies query_elem_ok(
                m,
                toks,
                #[trigger] sorted@[j],
            ) by {
                assert(sorted@[j] == sorted@[j]);
                assert(sorted@.contains(sorted@[j]));
                assert(sorted@.to_multiset().count(sorted@[j]) > 0);
                assert(keptg.to_multiset().count(sorted@[j]) > 0);
                assert(keptg.contains(sorted@[j]));
                let a = choose|a: int| 0 <= a < keptg.len() && keptg[a] == sorted@[j];
                assert(query_elem_ok(m, toks, keptg[a]));
            }
            assert forall|p: Seq<char>|
                #[trigger] db_recs(self.conn).dom().contains(p) && spec_blob_match(
                    db_recs(self.conn)[p].3,
                    toks,
                ) implies exists|j: int|
                0 <= j < sorted@.len() && sorted@[j].script_path@ == p by {
                let k = choose|k: int| 0 <= k < rows@.len() && rows@[k].script_path@ == p;
                assert(db_recs(self.conn).contains_pair(rows@[k].script_path@, row_v(rows@[k])));
                assert(row_v(rows@[k]) == m[p]);
                assert(spec_blob_match(row_v(rows@[k]).3, toks));
                let a = choose|a: int|
                    0 <= a < keptg.len() && keptg[a].script_path@ == rows@[k].script_path@;
                assert(keptg[a] == keptg[a]);
                assert(keptg.contains(keptg[a]));
                assert(keptg.to_multiset().count(keptg[a]) > 0);
                assert(sorted@.to_multiset().count(keptg[a]) > 0);
                assert(sorted@.contains(keptg[a]));
                let j = choose|j: int| 0 <= j < sorted@.len() && sorted@[j] == keptg[a];
                assert(sorted@[j].script_path@ == p);
            }
            assert(query_post(db_recs(self.conn), query@, sorted@));
        }
        Ok(sorted)
    }

    /// Fetch one record and its ordered fields, or nothing when the path
    /// is not indexed.
    pub fn load_details(&self, script_path: &str) -> (r: Result<Option<SearchDetails>, String>)
        ensures
            r matches Ok(None) ==> !db_recs(self.conn).dom().contains(script_path@),
            r matches Ok(Some(d)) ==> db_recs(self.conn).dom().contains(script_path@) && details_match(d, db_recs(self.conn)[script_path@]),
            r matches Ok(Some(d)) ==> (db_fields(self.conn).dom().contains(script_path@) ==> fields_v(d.fields@) == db_fields(self.conn)[script_path@]),
            r matches Ok(Some(d)) ==> (!db_fields(self.conn).dom().contains(script_path@) ==> d.fields@.len() == 0),
    {
        let row = match store_select_one(&self.conn, script_path) {
            Ok(Some(row)) => row,
            Ok(None) => {
                return Ok(None);
            },
            Err(e) => {
                return Err(e);
            },
        };
        let fields = match store_select_fields(&self.conn, script_path) {
            Ok(fields) => fields,
            Err(e) => {
                return Err(e);
            },
        };
        let tags = parse_tags(&row.tags_raw);
        Ok(Some(SearchDetails {
            display_name: row.display_name,
            description: row.description,
            tags,
            fields,
            schema_error: row.schema_error,
        }))
    }
}

} // verus!

verus! {

/// A record placed last under its path survives the whole rebuild: the
/// rebuilt store maps its path to it.
pub proof fn lemma_rebuilt_store_holds(rs: Seq<SearchRecord>, i: int)
    requires
        0 <= i < rs.len(),
        forall|j: int| i < j < rs.len() ==> (#[trigger] rs[j].script_path@) != rs[i].script_path@,
    ensures
        recs_map(rs).dom().contains(rs[i].script_path@),
        recs_map(rs)[rs[i].script_path@] == rec_v(rs[i]),
    decreases rs.len(),
{
    if i == rs.len() - 1 {
        assert(rs.last() == rs[i]);
    } else {
        assert forall|j: int| i < j < rs.drop_last().len() implies (#[trigger] rs.drop_last()[j].script_path@) != rs.drop_last()[i].script_path@ by {
            assert(rs.drop_last()[j] == rs[j]);
            assert(rs.drop_last()[i] == rs[i]);
            assert(rs[j].script_path@ != rs[i].script_path@);
        }
        lemma_rebuilt_store_holds(rs.drop_last(), i);
        assert(rs.last().script_path@ != rs[i].script_path@) by {
            assert(rs.last() == rs[rs.len() - 1]);
        }
    }
}

/// After one rebuild, a query whose tokens all occur in a stored
/// record's blob names that record's path in its outcome.
pub proof fn lemma_rebuild_then_query_finds(rs: Seq<SearchRecord>, i: int, toks: Seq<Seq<char>>)
    requires
        0 <= i < rs.len(),
        forall|j: int| i < j < rs.len() ==> (#[trigger] rs[j].script_path@) != rs[i].script_path@,
        spec_blob_match(rs[i].search_blob@, toks),
    ensures
        spec_query_matches(recs_map(rs), toks).contains(rs[i].script_path@),
{
    lemma_rebuilt_store_holds(rs, i);
}

} // verus!
