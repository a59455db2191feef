use pylocate::pattern::{
    classify, effective_limit, is_glob, like_pattern, plan_search, text_expression, SearchMode,
    DEFAULT_LIMIT,
};
use pylocate::record::{extract, readable_records, Metadata, Walked};
use pylocate::sql::{
    row_limit, schema_statements, statement_for, CREATE_FILES, CREATE_FILES_FTS,
    CREATE_DELETE_TRIGGER, CREATE_INSERT_TRIGGER, CREATE_UPDATE_TRIGGER, SELECT_GLOB, SELECT_TEXT,
};
use pylocate::store::{collect_paths, count_or_zero, next_count, stats_of};

#[test]
fn wildcards_make_a_glob_pattern() {
    assert!(is_glob("*.txt"));
    assert!(is_glob("file?.txt"));
    assert!(is_glob("a*b?c"));
    assert!(is_glob("*"));
    assert!(is_glob("?"));
}

#[test]
fn plain_text_is_not_a_glob_pattern() {
    assert!(!is_glob("readme"));
    assert!(!is_glob(""));
    assert!(!is_glob("/docs/readme.md"));
    assert!(!is_glob("100%_sure"));
}

#[test]
fn classify_follows_the_wildcards() {
    assert_eq!(classify("*.txt"), SearchMode::Glob);
    assert_eq!(classify("what?"), SearchMode::Glob);
    assert_eq!(classify("readme"), SearchMode::FreeText);
    assert_eq!(classify(""), SearchMode::FreeText);
}

#[test]
fn like_pattern_translates_each_wildcard() {
    assert_eq!(like_pattern("*.txt"), "%.txt");
    assert_eq!(like_pattern("file?.txt"), "file_.txt");
    assert_eq!(like_pattern("*a?b*?"), "%a_b%_");
    assert_eq!(like_pattern("plain"), "plain");
    assert_eq!(like_pattern(""), "");
}

#[test]
fn like_pattern_keeps_other_characters() {
    assert_eq!(like_pattern("caf\u{e9}*"), "caf\u{e9}%");
    assert_eq!(like_pattern("%_*"), "%_%");
    assert_eq!(like_pattern("\u{65e5}\u{672c}?"), "\u{65e5}\u{672c}_");
}

#[test]
fn text_expression_quotes_the_pattern() {
    assert_eq!(text_expression("readme"), "\"readme\"*");
    assert_eq!(text_expression("two words"), "\"two words\"*");
    assert_eq!(text_expression(""), "\"\"*");
}

#[test]
fn the_argument_goes_by_the_mode() {
    assert_eq!(plan_search("*.txt", None).argument, "%.txt");
    assert_eq!(plan_search("readme", None).argument, "\"readme\"*");
}

#[test]
fn effective_limit_defaults_to_a_thousand() {
    assert_eq!(DEFAULT_LIMIT, 1000);
    assert_eq!(effective_limit(None), 1000);
    assert_eq!(effective_limit(Some(5)), 5);
    assert_eq!(effective_limit(Some(0)), 0);
}

#[test]
fn plan_for_a_glob_pattern() {
    let plan = plan_search("file?.txt", Some(7));
    assert_eq!(plan.mode, SearchMode::Glob);
    assert_eq!(plan.argument, "file_.txt");
    assert_eq!(plan.limit, 7);
    assert_eq!(statement_for(plan.mode), SELECT_GLOB);
}

#[test]
fn plan_for_free_text() {
    let plan = plan_search("readme", None);
    assert_eq!(plan.mode, SearchMode::FreeText);
    assert_eq!(plan.argument, "\"readme\"*");
    assert_eq!(plan.limit, 1000);
    assert_eq!(statement_for(plan.mode), SELECT_TEXT);
}

#[test]
fn row_limit_is_the_limit_where_it_fits() {
    assert_eq!(row_limit(0), 0);
    assert_eq!(row_limit(1000), 1000);
    assert_eq!(row_limit(usize::MAX), i64::MAX);
}

#[test]
fn extract_keeps_what_was_read() {
    let metadata = Metadata { identity: Some(42), modified_at: Some(1_700_000_000), size: Some(512) };
    let record = extract(String::from("/a/b"), &metadata);
    assert_eq!(record.path, "/a/b");
    assert_eq!(record.identity, 42);
    assert_eq!(record.modified_at, 1_700_000_000);
    assert_eq!(record.size, 512);
}

#[test]
fn extract_puts_zero_for_what_is_missing() {
    let metadata = Metadata { identity: None, modified_at: None, size: None };
    let record = extract(String::from("/a"), &metadata);
    assert_eq!(record.path, "/a");
    assert_eq!(record.identity, 0);
    assert_eq!(record.modified_at, 0);
    assert_eq!(record.size, 0);
    let partial = Metadata { identity: Some(9), modified_at: None, size: Some(3) };
    let record = extract(String::from("/b"), &partial);
    assert_eq!((record.identity, record.modified_at, record.size), (9, 0, 3));
}

#[test]
fn readable_records_pass_over_unreadable_entries() {
    let metadata = Metadata { identity: Some(1), modified_at: Some(2), size: Some(3) };
    let walk = vec![
        Walked::Entry { path: String::from("/x"), metadata },
        Walked::Unreadable,
        Walked::Entry { path: String::from("/y"), metadata },
    ];
    let records = readable_records(&walk);
    assert_eq!(records.len(), 2);
    assert_eq!(records[0].path, "/x");
    assert_eq!(records[1].path, "/y");
    assert_eq!(records[1].size, 3);
    assert!(readable_records(&vec![Walked::Unreadable]).is_empty());
    assert!(readable_records(&Vec::new()).is_empty());
}

#[test]
fn collect_paths_keeps_a_prefix_of_the_rows() {
    let rows = vec![String::from("a"), String::from("b"), String::from("c")];
    assert_eq!(collect_paths(&rows, 10), vec!["a", "b", "c"]);
    assert_eq!(collect_paths(&rows, 3), vec!["a", "b", "c"]);
    assert_eq!(collect_paths(&rows, 2), vec!["a", "b"]);
    assert_eq!(collect_paths(&rows, 1), vec!["a"]);
    assert!(collect_paths(&rows, 0).is_empty());
    assert!(collect_paths(&Vec::new(), 5).is_empty());
}

#[test]
fn stats_take_zero_for_what_is_missing() {
    let stats = stats_of(Ok(12), Some(4096));
    assert_eq!(stats.record_count, 12);
    assert_eq!(stats.byte_size, 4096);
    let stats = stats_of(Err(rusqlite::Error::QueryReturnedNoRows), None);
    assert_eq!(stats.record_count, 0);
    assert_eq!(stats.byte_size, 0);
    let stats = stats_of(Ok(-1), Some(7));
    assert_eq!(stats.record_count, 0);
    assert_eq!(stats.byte_size, 7);
}

#[test]
fn schema_statements_come_in_order() {
    let statements = schema_statements();
    assert_eq!(
        statements,
        [
            CREATE_FILES,
            CREATE_FILES_FTS,
            CREATE_INSERT_TRIGGER,
            CREATE_DELETE_TRIGGER,
            CREATE_UPDATE_TRIGGER,
        ]
    );
    for statement in statements {
        assert!(statement.contains("IF NOT EXISTS"));
    }
}

#[test]
fn count_or_zero_takes_zero_for_a_failure() {
    assert_eq!(count_or_zero(Ok(0)), 0);
    assert_eq!(count_or_zero(Ok(41)), 41);
    assert_eq!(count_or_zero(Ok(-5)), 0);
    assert_eq!(count_or_zero(Err(rusqlite::Error::QueryReturnedNoRows)), 0);
}

#[test]
fn next_count_counts_the_inserts_that_went_in() {
    assert_eq!(next_count(0, &Ok(1)), 1);
    assert_eq!(next_count(6, &Ok(1)), 7);
    assert_eq!(next_count(6, &Err(rusqlite::Error::InvalidQuery)), 6);
}
