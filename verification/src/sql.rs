//! The statements that run against the store: the schema, the writes and
//! the queries.

use vstd::prelude::*;
use crate::pattern::SearchMode;

verus! {

/// The table of records.
pub const CREATE_FILES: &'static str =
    "CREATE TABLE IF NOT EXISTS files (
            id INTEGER PRIMARY KEY,
            path TEXT NOT NULL,
            inode INTEGER,
            mtime INTEGER,
            size INTEGER
        )";

/// The text index over the paths, tied to the records by their id.
pub const CREATE_FILES_FTS: &'static str =
    "CREATE VIRTUAL TABLE IF NOT EXISTS files_fts USING fts5(
            path,
            content='files',
            content_rowid='id',
            tokenize = 'unicode61'
        )";

/// After an insert, the new record enters the text index.
pub const CREATE_INSERT_TRIGGER: &'static str =
    "CREATE TRIGGER IF NOT EXISTS files_ai AFTER INSERT ON files BEGIN
            INSERT INTO files_fts(rowid, path) VALUES (new.id, new.path);
        END";

/// After a delete, the old record leaves the text index.
pub const CREATE_DELETE_TRIGGER: &'static str =
    "CREATE TRIGGER IF NOT EXISTS files_ad AFTER DELETE ON files BEGIN
            INSERT INTO files_fts(files_fts, rowid, path)
            VALUES('delete', old.id, old.path);
        END";

/// After an update, the old record leaves the text index and the new one
/// enters it.
pub const CREATE_UPDATE_TRIGGER: &'static str =
    "CREATE TRIGGER IF NOT EXISTS files_au AFTER UPDATE ON files BEGIN
            INSERT INTO files_fts(files_fts, rowid, path)
            VALUES('delete', old.id, old.path);
            INSERT INTO files_fts(rowid, path) VALUES (new.id, new.path);
        END";

/// Deletes every record.
pub const DELETE_FILES: &'static str = "DELETE FROM files";

/// Inserts one record.
pub const INSERT_FILE: &'static str =
    "INSERT INTO files (path, inode, mtime, size) VALUES (?1, ?2, ?3, ?4)";

/// Counts the records.
pub const COUNT_FILES: &'static str = "SELECT COUNT(*) FROM files";

/// Paths that match a LIKE pattern, in the order of the paths. A path
/// matches as a whole, or by what follows one of its `/`: a pattern for a
/// file's name finds the file in whatever directory it lies.
pub const SELECT_GLOB: &'static str =
    "SELECT path FROM files
                 WHERE path LIKE ?1 ESCAPE '\\' OR path LIKE '%/' || ?1 ESCAPE '\\'
                 ORDER BY path LIMIT ?2";

/// Paths whose text-index entry matches an expression, best match first.
pub const SELECT_TEXT: &'static str =
    "SELECT files.path FROM files_fts
                 JOIN files ON files_fts.rowid = files.id
                 WHERE files_fts MATCH ?1
                 ORDER BY rank LIMIT ?2";

/// The largest row limit that a query takes.
pub const MAX_ROW_LIMIT: i64 = 0x7fff_ffff_ffff_ffff;

/// The statements of the schema, in the order in which they are run: the
/// two tables, then the three triggers.
pub open spec fn schema_spec() -> Seq<Seq<char>> {
    seq![
        CREATE_FILES@,
        CREATE_FILES_FTS@,
        CREATE_INSERT_TRIGGER@,
        CREATE_DELETE_TRIGGER@,
        CREATE_UPDATE_TRIGGER@,
    ]
}

/// The query that a mode runs.
pub open spec fn statement_of(mode: SearchMode) -> Seq<char> {
    match mode {
        SearchMode::Glob => SELECT_GLOB@,
        SearchMode::FreeText => SELECT_TEXT@,
    }
}

/// The row limit handed to a query for a caller's limit.
pub open spec fn row_limit_spec(limit: usize) -> i64 {
    if limit <= MAX_ROW_LIMIT {
        limit as i64
    } else {
        MAX_ROW_LIMIT
    }
}

/// The statements of the schema.
pub fn schema_statements() -> (r: [&'static str; 5])
    ensures
        r@.len() == schema_spec().len(),
        forall|i: int| 0 <= i < 5 ==> (#[trigger] r@[i])@ == schema_spec()[i],
{
    [
        CREATE_FILES,
        CREATE_FILES_FTS,
        CREATE_INSERT_TRIGGER,
        CREATE_DELETE_TRIGGER,
        CREATE_UPDATE_TRIGGER,
    ]
}

/// The query that a mode runs.
pub fn statement_for(mode: SearchMode) -> (r: &'static str)
    ensures
        r@ == statement_of(mode),
{
    match mode {
        SearchMode::Glob => SELECT_GLOB,
        SearchMode::FreeText => SELECT_TEXT,
    }
}

/// The row limit handed to a query for a caller's limit.
pub fn row_limit(limit: usize) -> (r: i64)
    ensures
        r == row_limit_spec(limit),
        0 <= r,
{
    if limit as u64 <= 0x7fff_ffff_ffff_ffffu64 {
        limit as i64
    } else {
        MAX_ROW_LIMIT
    }
}

} // verus!
