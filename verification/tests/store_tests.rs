use pylocate::engine::{get_stats, reindex, search_files};
use pylocate::pattern::plan_search;
use pylocate::record::{Metadata, Record, Walked};
use pylocate::store::{StorageError, Store};

fn entry(path: &str) -> Walked {
    Walked::Entry {
        path: String::from(path),
        metadata: Metadata { identity: Some(7), modified_at: Some(1_700_000_000), size: Some(10) },
    }
}

fn record(path: &str) -> Record {
    Record { path: String::from(path), identity: 1, modified_at: 2, size: 3 }
}

fn fresh(name: &str) -> String {
    let location = format!("/tmp/pylocate_{}.db", name);
    let conn = rusqlite::Connection::open(&location).unwrap();
    conn.execute_batch(
        "DROP TABLE IF EXISTS files; DROP TABLE IF EXISTS files_fts; DROP TABLE IF EXISTS other;",
    )
    .unwrap();
    location
}

fn schema_objects(location: &str) -> Vec<String> {
    let conn = rusqlite::Connection::open(location).unwrap();
    let mut stmt = conn
        .prepare("SELECT type || ':' || name FROM sqlite_master ORDER BY type, name")
        .unwrap();
    let rows = stmt.query_map([], |row| row.get::<_, String>(0)).unwrap();
    rows.map(|r| r.unwrap()).collect()
}

fn index_entries(location: &str) -> Vec<(i64, String)> {
    let conn = rusqlite::Connection::open(location).unwrap();
    let mut stmt = conn.prepare("SELECT rowid, path FROM files_fts ORDER BY rowid").unwrap();
    let rows = stmt
        .query_map([], |row| Ok((row.get::<_, i64>(0)?, row.get::<_, String>(1)?)))
        .unwrap();
    rows.map(|r| r.unwrap()).collect()
}

fn live_records(location: &str) -> Vec<(i64, String)> {
    let conn = rusqlite::Connection::open(location).unwrap();
    let mut stmt = conn.prepare("SELECT id, path FROM files ORDER BY id").unwrap();
    let rows = stmt
        .query_map([], |row| Ok((row.get::<_, i64>(0)?, row.get::<_, String>(1)?)))
        .unwrap();
    rows.map(|r| r.unwrap()).collect()
}

#[test]
fn schema_is_created_once() {
    let location = fresh("schema");
    let mut store = Store::open(&location).unwrap();
    store.ensure_schema().unwrap();
    let once = schema_objects(&location);
    store.ensure_schema().unwrap();
    let twice = schema_objects(&location);
    assert_eq!(once, twice);
    assert!(once.contains(&String::from("table:files")));
    assert!(once.contains(&String::from("table:files_fts")));
    assert!(once.contains(&String::from("trigger:files_ai")));
    assert!(once.contains(&String::from("trigger:files_ad")));
    assert!(once.contains(&String::from("trigger:files_au")));
}

#[test]
fn text_index_follows_the_records() {
    let location = fresh("invariant");
    let mut store = Store::open(&location).unwrap();
    store.ensure_schema().unwrap();
    let records = vec![record("/a/one.txt"), record("/a/two.txt"), record("/b/three.txt")];
    assert_eq!(store.insert_batch(&records).unwrap(), 3);
    assert_eq!(index_entries(&location), live_records(&location));
    assert_eq!(live_records(&location).len(), 3);

    let conn = rusqlite::Connection::open(&location).unwrap();
    conn.execute("UPDATE files SET path = '/a/uno.txt' WHERE path = '/a/one.txt'", []).unwrap();
    assert_eq!(index_entries(&location), live_records(&location));
    assert_eq!(store.query_text("\"uno\"", 10).unwrap(), vec!["/a/uno.txt"]);
    assert!(store.query_text("\"one\"", 10).unwrap().is_empty());

    conn.execute("DELETE FROM files WHERE path = '/a/two.txt'", []).unwrap();
    assert_eq!(index_entries(&location), live_records(&location));
    assert_eq!(live_records(&location).len(), 2);
    assert!(store.query_text("\"two\"", 10).unwrap().is_empty());

    store.clear().unwrap();
    assert!(live_records(&location).is_empty());
    assert!(index_entries(&location).is_empty());
    assert!(store.query_text("\"three\"", 10).unwrap().is_empty());
    assert_eq!(store.count().unwrap(), 0);
}

#[test]
fn insert_batch_stores_the_fields() {
    let location = fresh("fields");
    let mut store = Store::open(&location).unwrap();
    store.ensure_schema().unwrap();
    let records =
        vec![Record { path: String::from("/p"), identity: 11, modified_at: 22, size: 33 }];
    assert_eq!(store.insert_batch(&records).unwrap(), 1);
    let conn = rusqlite::Connection::open(&location).unwrap();
    let row: (String, i64, i64, i64) = conn
        .query_row("SELECT path, inode, mtime, size FROM files", [], |row| {
            Ok((row.get(0)?, row.get(1)?, row.get(2)?, row.get(3)?))
        })
        .unwrap();
    assert_eq!(row, (String::from("/p"), 11, 22, 33));
    assert_eq!(store.count().unwrap(), 1);
}

#[test]
fn reindex_replaces_the_earlier_generation() {
    let location = fresh("replace");
    let first = vec![entry("/old/a.txt"), entry("/old/b.txt"), entry("/old/c.txt")];
    assert_eq!(reindex(&location, &first).0.unwrap(), 3);
    let second = vec![entry("/new/x.txt"), entry("/new/y.txt")];
    assert_eq!(reindex(&location, &second).0.unwrap(), 2);
    assert_eq!(get_stats(&location, None).0.unwrap().record_count, 2);
    assert_eq!(
        search_files(&location, "*", None).0.unwrap(),
        vec!["/new/x.txt", "/new/y.txt"]
    );
    assert!(search_files(&location, "/old/*", None).0.unwrap().is_empty());
    assert!(search_files(&location, "old", None).0.unwrap().is_empty());
}

#[test]
fn glob_search_finds_the_matching_path() {
    let location = fresh("glob");
    let walk = vec![entry("/a"), entry("/a/b"), entry("/a/b/file1.txt"), entry("/a/b/file2.log")];
    assert_eq!(reindex(&location, &walk).0.unwrap(), 4);
    assert_eq!(search_files(&location, "*.txt", None).0.unwrap(), vec!["/a/b/file1.txt"]);
    assert_eq!(search_files(&location, "file?.txt", None).0.unwrap(), vec!["/a/b/file1.txt"]);
    assert_eq!(search_files(&location, "*file?.txt", None).0.unwrap(), vec!["/a/b/file1.txt"]);
    assert!(search_files(&location, "ile?.txt", None).0.unwrap().is_empty());
    assert!(search_files(&location, "file?", None).0.unwrap().is_empty());
    assert_eq!(
        search_files(&location, "/a/b/file?.*", None).0.unwrap(),
        vec!["/a/b/file1.txt", "/a/b/file2.log"]
    );
}

#[test]
fn glob_search_matches_a_path_or_its_tail() {
    let location = fresh("globtail");
    let walk = vec![entry("file1.txt"), entry("file22.txt"), entry("/a/b/file1.txt")];
    assert_eq!(reindex(&location, &walk).0.unwrap(), 3);
    assert_eq!(
        search_files(&location, "file?.txt", None).0.unwrap(),
        vec!["/a/b/file1.txt", "file1.txt"]
    );
    assert_eq!(search_files(&location, "b/file?.txt", None).0.unwrap(), vec!["/a/b/file1.txt"]);
    assert_eq!(search_files(&location, "/a/?/*", None).0.unwrap(), vec!["/a/b/file1.txt"]);
    assert_eq!(search_files(&location, "file??.txt", None).0.unwrap(), vec!["file22.txt"]);
}

#[test]
fn free_text_search_ranks_the_shorter_path_first() {
    let location = fresh("rank");
    let walk = vec![entry("/docs/readme_old.md"), entry("/docs/readme.md"), entry("/docs/other.md")];
    assert_eq!(reindex(&location, &walk).0.unwrap(), 3);
    assert_eq!(
        search_files(&location, "readme", None).0.unwrap(),
        vec!["/docs/readme.md", "/docs/readme_old.md"]
    );
}

#[test]
fn free_text_search_of_nothing_finds_nothing() {
    let location = fresh("empty");
    assert_eq!(reindex(&location, &vec![entry("/docs/readme.md")]).0.unwrap(), 1);
    assert!(search_files(&location, "", None).0.unwrap().is_empty());
}

#[test]
fn search_returns_the_first_of_the_full_order() {
    let location = fresh("limit");
    let walk = vec![
        entry("/t/e.txt"),
        entry("/t/c.txt"),
        entry("/t/a.txt"),
        entry("/t/d.txt"),
        entry("/t/b.txt"),
    ];
    assert_eq!(reindex(&location, &walk).0.unwrap(), 5);
    let all = search_files(&location, "*.txt", None).0.unwrap();
    assert_eq!(all, vec!["/t/a.txt", "/t/b.txt", "/t/c.txt", "/t/d.txt", "/t/e.txt"]);
    let some = search_files(&location, "*.txt", Some(2)).0.unwrap();
    assert_eq!(some, vec!["/t/a.txt", "/t/b.txt"]);
    assert_eq!(search_files(&location, "*.txt", Some(5)).0.unwrap(), all);
    assert!(search_files(&location, "*.txt", Some(0)).0.unwrap().is_empty());
    let ranked = search_files(&location, "txt", None).0.unwrap();
    assert_eq!(ranked.len(), 5);
    let fewer = search_files(&location, "txt", Some(3)).0.unwrap();
    assert_eq!(fewer, ranked[..3].to_vec());
}

#[test]
fn an_unreadable_entry_is_passed_over() {
    let location = fresh("partial");
    let walk = vec![entry("/n/1"), entry("/n/2"), Walked::Unreadable, entry("/n/3"), entry("/n/4")];
    assert_eq!(reindex(&location, &walk).0.unwrap(), 4);
    assert_eq!(
        search_files(&location, "/n/*", None).0.unwrap(),
        vec!["/n/1", "/n/2", "/n/3", "/n/4"]
    );
}

#[test]
fn stats_agree_with_reindex() {
    let location = fresh("stats");
    let walk = vec![entry("/s/1"), entry("/s/2"), entry("/s/3")];
    let count = reindex(&location, &walk).0.unwrap();
    let stats = get_stats(&location, Some(8192)).0.unwrap();
    assert_eq!(stats.record_count, count);
    assert_eq!(stats.record_count, 3);
    assert_eq!(stats.byte_size, 8192);
    assert_eq!(get_stats(&location, None).0.unwrap().byte_size, 0);
}

#[test]
fn stats_of_a_store_without_tables_are_zero() {
    let location = fresh("bare");
    let stats = get_stats(&location, None).0.unwrap();
    assert_eq!(stats.record_count, 0);
    assert_eq!(stats.byte_size, 0);
}

#[test]
fn duplicate_paths_are_kept_apart() {
    let location = fresh("dup");
    let walk = vec![entry("/d/same"), entry("/d/same")];
    assert_eq!(reindex(&location, &walk).0.unwrap(), 2);
    assert_eq!(search_files(&location, "/d/*", None).0.unwrap(), vec!["/d/same", "/d/same"]);
}

#[test]
fn a_store_that_cannot_be_opened_is_an_error() {
    let location = "/nonexistent_directory_for_pylocate/index.db";
    assert!(matches!(Store::open(location), Err(StorageError::Open(_))));
    assert!(matches!(reindex(location, &Vec::new()).0, Err(StorageError::Open(_))));
    assert!(matches!(search_files(location, "x", None).0, Err(StorageError::Open(_))));
    assert!(matches!(search_files(location, "", None).0, Err(StorageError::Open(_))));
    assert!(matches!(get_stats(location, None).0, Err(StorageError::Open(_))));
}

#[test]
fn a_search_creates_the_schema_itself() {
    let location = fresh("notables");
    assert!(search_files(&location, "*.txt", None).0.unwrap().is_empty());
    let location = fresh("notables_text");
    assert!(search_files(&location, "readme", None).0.unwrap().is_empty());
    let location = fresh("notables_stats");
    assert_eq!(get_stats(&location, None).0.unwrap().record_count, 0);
    let objects = schema_objects(&location);
    assert!(objects.contains(&String::from("table:files")));
    assert!(objects.contains(&String::from("trigger:files_au")));
}

#[test]
fn a_store_without_tables_fails_each_statement() {
    let location = fresh("bare_store");
    let mut store = Store::open(&location).unwrap();
    assert!(matches!(store.run(&plan_search("a*", None)), Err(StorageError::Prepare(_))));
    assert!(matches!(store.insert_batch(&Vec::new()), Err(StorageError::Prepare(_))));
    assert!(matches!(store.clear(), Err(StorageError::Clear(_))));
    assert!(matches!(store.count(), Err(StorageError::Query(_))));
    assert!(store.search("a*", None).unwrap().is_empty());
    assert_eq!(store.count().unwrap(), 0);
}

#[test]
fn a_name_that_is_taken_fails_at_the_schema() {
    let location = fresh("taken");
    let conn = rusqlite::Connection::open(&location).unwrap();
    conn.execute_batch("CREATE TABLE other (x INTEGER); CREATE INDEX files ON other (x);")
        .unwrap();
    let mut store = Store::open(&location).unwrap();
    assert!(matches!(store.ensure_schema(), Err(StorageError::Schema(_))));
    assert!(matches!(reindex(&location, &Vec::new()).0, Err(StorageError::Schema(_))));
    assert!(matches!(search_files(&location, "*", None).0, Err(StorageError::Schema(_))));
    assert!(matches!(store.search("x", None), Err(StorageError::Schema(_))));
    let stats = get_stats(&location, Some(5)).0.unwrap();
    assert_eq!(stats.record_count, 0);
    assert_eq!(stats.byte_size, 5);
}

#[test]
fn a_store_rebuilds_searches_and_counts() {
    let location = fresh("handle");
    let mut store = Store::open(&location).unwrap();
    let walk = vec![entry("/h/b.txt"), Walked::Unreadable, entry("/h/a.txt"), entry("/h/c.log")];
    assert_eq!(store.rebuild(&walk).unwrap(), 3);
    assert_eq!(store.search("*.txt", None).unwrap(), vec!["/h/a.txt", "/h/b.txt"]);
    assert_eq!(store.search("*.txt", Some(1)).unwrap(), vec!["/h/a.txt"]);
    assert_eq!(store.search("log", None).unwrap(), vec!["/h/c.log"]);
    assert!(store.search("", None).unwrap().is_empty());
    assert_eq!(store.query_glob("/h/_.txt", 10).unwrap(), vec!["/h/a.txt", "/h/b.txt"]);
    assert_eq!(store.run(&plan_search("c.log", None)).unwrap(), vec!["/h/c.log"]);
    let stats = store.stats(Some(100));
    assert_eq!(stats.record_count, 3);
    assert_eq!(stats.byte_size, 100);
    assert_eq!(store.rebuild(&vec![entry("/h/only")]).unwrap(), 1);
    assert_eq!(store.count().unwrap(), 1);
    assert_eq!(store.search("*", None).unwrap(), vec!["/h/only"]);
}

#[test]
fn replace_all_leaves_only_the_new_records() {
    let location = fresh("replaceall");
    let mut store = Store::open(&location).unwrap();
    store.ensure_schema().unwrap();
    assert_eq!(store.replace_all(&vec![record("/r/1"), record("/r/2")]).unwrap(), 2);
    assert_eq!(store.replace_all(&vec![record("/r/3")]).unwrap(), 1);
    assert_eq!(live_records(&location).len(), 1);
    assert_eq!(index_entries(&location), live_records(&location));
    assert_eq!(store.query_glob("%", 10).unwrap(), vec!["/r/3"]);
    assert_eq!(store.replace_all(&Vec::new()).unwrap(), 0);
    assert_eq!(store.count().unwrap(), 0);
}

#[test]
fn a_query_that_cannot_run_is_an_error() {
    let location = fresh("quote");
    assert_eq!(reindex(&location, &vec![entry("/q/readme.md")]).0.unwrap(), 1);
    assert!(matches!(
        search_files(&location, "read\"me", None).0,
        Err(StorageError::Query(_))
    ));
    let mut store = Store::open(&location).unwrap();
    assert!(matches!(store.query_text("*readme*", 10), Err(StorageError::Query(_))));
    assert_eq!(store.query_text("readme", 10).unwrap(), vec!["/q/readme.md"]);
}

#[test]
fn a_search_without_a_limit_stops_at_a_thousand() {
    let location = fresh("thousand");
    let mut walk = Vec::new();
    for i in 0..1005 {
        walk.push(entry(&format!("/many/{:04}.dat", i)));
    }
    assert_eq!(reindex(&location, &walk).0.unwrap(), 1005);
    assert_eq!(get_stats(&location, None).0.unwrap().record_count, 1005);
    let found = search_files(&location, "*.dat", None).0.unwrap();
    assert_eq!(found.len(), 1000);
    assert_eq!(found[0], "/many/0000.dat");
    assert_eq!(found[999], "/many/0999.dat");
    assert_eq!(search_files(&location, "*.dat", Some(2000)).0.unwrap().len(), 1005);
    assert_eq!(search_files(&location, "dat", None).0.unwrap().len(), 1000);
}

#[test]
fn an_insert_that_fails_is_not_counted() {
    let location = fresh("reject");
    let mut store = Store::open(&location).unwrap();
    store.ensure_schema().unwrap();
    let conn = rusqlite::Connection::open(&location).unwrap();
    conn.execute_batch(
        "CREATE TRIGGER reject BEFORE INSERT ON files WHEN new.path = '/bad'
         BEGIN SELECT RAISE(ABORT, 'rejected'); END;",
    )
    .unwrap();
    let records = vec![record("/good/1"), record("/bad"), record("/good/2")];
    assert_eq!(store.replace_all(&records).unwrap(), 2);
    assert_eq!(store.count().unwrap(), 2);
    assert_eq!(store.query_glob("%", 10).unwrap(), vec!["/good/1", "/good/2"]);
    let walk = vec![entry("/bad"), Walked::Unreadable, entry("/good/3")];
    assert_eq!(reindex(&location, &walk).0.unwrap(), 1);
    assert_eq!(get_stats(&location, None).0.unwrap().record_count, 1);
    assert_eq!(search_files(&location, "*", None).0.unwrap(), vec!["/good/3"]);
}
