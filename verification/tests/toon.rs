use depotd::adapters::toon::{leaf, Document, ToonError};

#[test]
fn scalars_lists_and_tables_are_read_under_their_keys() {
    let doc = Document::parse(
        "name: depot\nstate: \"running\\n\"\nitems[2]:\n  a\n  \"b, c\"\nsessions[2]{id, state}:\n  s-1,running\n  \"s,2\",done\n",
    )
    .unwrap();
    assert_eq!(doc.scalar("name"), Some("depot"));
    assert_eq!(doc.scalar("state"), Some("running\n"));
    assert_eq!(doc.rows("items"), Some(&["a".to_string(), "b, c".to_string()][..]));
    let table = doc.table("sessions").unwrap();
    assert_eq!(table.columns, &["id".to_string(), "state".to_string()][..]);
    assert_eq!(table.rows[1], vec!["s,2".to_string(), "done".to_string()]);
    assert_eq!(table.column("state"), Ok(1));
    assert_eq!(doc.keys(), vec!["name", "state", "items", "sessions"]);
    assert_eq!(doc.scalar("missing"), None);
}

#[test]
fn sections_qualify_the_keys_below_them() {
    let doc = Document::parse("outer:\n  inner:\n    value: 1\n  other: 2\ntop: 3\n").unwrap();
    assert_eq!(doc.keys(), vec!["value", "other", "top"]);
    assert_eq!(doc.scalar("value"), Some("1"));
    assert_eq!(leaf("outer.inner.value"), "value");
    assert_eq!(leaf("plain"), "plain");
}

#[test]
fn an_empty_list_is_full_at_once() {
    let doc = Document::parse("items[0]:\nnext: x\n").unwrap();
    assert_eq!(doc.rows("items"), Some(&[][..]));
    assert_eq!(doc.scalar("next"), Some("x"));
}

#[test]
fn malformed_documents_are_refused_with_the_line() {
    assert_eq!(
        Document::parse("just words"),
        Err(ToonError::Unreadable("just words".to_string()))
    );
    assert_eq!(
        Document::parse("k: \"open"),
        Err(ToonError::UnterminatedQuote { line: 1 })
    );
    assert_eq!(
        Document::parse("k: \"a\"b"),
        Err(ToonError::TrailingCharacters { line: 1, text: "\"a\"b".to_string() })
    );
    assert_eq!(
        Document::parse("k: \"\\q\""),
        Err(ToonError::UnknownEscape { line: 1, escape: "\\q".to_string() })
    );
    assert_eq!(
        Document::parse("items[3]:\n  a\nnext: b\n"),
        Err(ToonError::RowCount { key: "items".to_string(), expected: 3, found: 1, line: 3 })
    );
    assert_eq!(
        Document::parse("t[1]{a,b}:\n  x\n"),
        Err(ToonError::ColumnCount { key: "t".to_string(), expected: 2, found: 1, line: 2 })
    );
}

#[test]
fn toon_errors_read_as_sentences() {
    assert_eq!(
        ToonError::Unreadable("x".to_string()).message(),
        "unreadable line \"x\""
    );
    assert_eq!(
        ToonError::RowCount { key: "k".to_string(), expected: 2, found: 1, line: 4 }.message(),
        "k announces 2 rows but line 4 ends it with 1"
    );
    assert_eq!(
        ToonError::ColumnCount { key: "k".to_string(), expected: 2, found: 3, line: 5 }.message(),
        "k row on line 5 has 3 fields where 2 were announced"
    );
    assert_eq!(
        ToonError::MissingColumn { key: "id".to_string(), columns: vec!["a".to_string()] }.message(),
        "no id column in the announced columns [\"a\"]"
    );
    let doc = Document::parse("t[0]{a}:\n").unwrap();
    assert_eq!(
        doc.table("t").unwrap().column("id"),
        Err(ToonError::MissingColumn { key: "id".to_string(), columns: vec!["a".to_string()] })
    );
}
