use musicfs::query::{parse_fuzzy_query, FuzzyQuery, SearchQueryBuilder};

#[test]
fn test_query_builder() {
    let artist = 0u32;
    let title = 1u32;

    let builder = SearchQueryBuilder::new(vec![artist, title]);
    let query = builder.build_fuzzy("metallica sandman");
    match query {
        FuzzyQuery::Must(clauses) => {
            assert_eq!(clauses.len(), 2);
            assert_eq!(clauses[0].term, "metallica");
            assert_eq!(clauses[1].term, "sandman");
            assert_eq!(clauses[0].fields, vec![artist, title]);
            assert_eq!(clauses[0].distance, 1);
        },
        FuzzyQuery::All => panic!("expected clauses"),
    }
}

#[test]
fn test_empty_query() {
    let artist = 0u32;

    let builder = SearchQueryBuilder::new(vec![artist]);
    let query = builder.build_fuzzy("");
    assert!(matches!(query, FuzzyQuery::All));
}

#[test]
fn build_fuzzy_splits_on_unicode_whitespace_and_lowercases() {
    let builder = SearchQueryBuilder::new(vec![3]).with_fuzziness(2);
    assert!(matches!(builder.build_fuzzy(" \t\u{3000} "), FuzzyQuery::All));
    match builder.build_fuzzy("  Iron\u{A0}MAIDEN \n ÄCES ") {
        FuzzyQuery::Must(clauses) => {
            let terms: Vec<&str> = clauses.iter().map(|c| c.term.as_str()).collect();
            assert_eq!(terms, vec!["iron", "maiden", "äces"]);
            assert!(clauses.iter().all(|c| c.distance == 2 && c.fields == vec![3]));
        },
        FuzzyQuery::All => panic!("expected clauses"),
    }
}

#[test]
fn fuzzy_query_form() {
    assert_eq!(parse_fuzzy_query("metalica~1"), Some(("metalica".to_string(), 1)));
    assert_eq!(parse_fuzzy_query("  Metalica~2\n"), Some(("metalica".to_string(), 2)));
    assert_eq!(parse_fuzzy_query("metalica~+0"), Some(("metalica".to_string(), 0)));
    assert_eq!(parse_fuzzy_query("a~b~1"), Some(("a~b".to_string(), 1)));
    assert_eq!(parse_fuzzy_query("metalica~3"), None);
    assert_eq!(parse_fuzzy_query("genre:Metal~1"), None);
    assert_eq!(parse_fuzzy_query("iron maiden~1"), None);
    assert_eq!(parse_fuzzy_query("~1"), None);
    assert_eq!(parse_fuzzy_query("metallica"), None);
    assert_eq!(parse_fuzzy_query("metalica~"), None);
    assert_eq!(parse_fuzzy_query("metalica~-1"), None);
}
