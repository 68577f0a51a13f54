use candlekeep::ranges::{parse_ids, parse_ids_with_ranges, RangeError};

#[test]
fn parses_every_token_in_order() {
    let items = match parse_ids_with_ranges("a:1-5, b:all ,c:ALL,d:All") {
        Ok(v) => v,
        Err(_) => panic!("expected a parse"),
    };
    let ids: Vec<&str> = items.iter().map(|r| r.id.as_str()).collect();
    assert_eq!(ids, vec!["a", "b", "c", "d"]);
    assert_eq!(items[0].pages.as_deref(), Some("1-5"));
    assert_eq!(items[1].pages, None);
    assert_eq!(items[2].pages, None);
    assert_eq!(items[3].pages, None);
}

#[test]
fn page_lists_split_on_commas() {
    // `e:1,3,5` splits on commas: `3` and `5` become tokens of their own.
    match parse_ids_with_ranges("e:1,3,5") {
        Err(RangeError::MissingSelector(m)) => assert_eq!(m, vec!["3", "5"]),
        _ => panic!("expected a missing selector"),
    }
    match parse_ids_with_ranges("3,5") {
        Err(RangeError::MissingSelector(m)) => assert_eq!(m, vec!["3", "5"]),
        _ => panic!("expected a missing selector"),
    }
}

#[test]
fn trims_identifier_and_selector() {
    let items = match parse_ids_with_ranges("  x1 :  10-20  ") {
        Ok(v) => v,
        Err(_) => panic!("expected a parse"),
    };
    assert_eq!(items.len(), 1);
    assert_eq!(items[0].id, "x1");
    assert_eq!(items[0].pages.as_deref(), Some("10-20"));
}

#[test]
fn splits_on_first_colon_only() {
    let items = match parse_ids_with_ranges("doc:a:b") {
        Ok(v) => v,
        Err(_) => panic!("expected a parse"),
    };
    assert_eq!(items[0].id, "doc");
    assert_eq!(items[0].pages.as_deref(), Some("a:b"));
}

#[test]
fn lists_every_missing_selector() {
    match parse_ids_with_ranges("a, b:1-5, c,d:all, e") {
        Err(RangeError::MissingSelector(m)) => assert_eq!(m, vec!["a", "c", "e"]),
        _ => panic!("expected a missing selector"),
    }
}

#[test]
fn missing_selector_message_suggests_fixes() {
    let err = match parse_ids_with_ranges("a,b:1,c") {
        Err(e) => e,
        Ok(_) => panic!("expected a failure"),
    };
    let text = err.message();
    assert!(text.starts_with("Missing page range for: a, c\n\n"));
    assert!(text.contains("Example: a:all,c:all\n"));
    assert!(text.contains("id:1-3,7,10   - Combined ranges"));
}

#[test]
fn empty_selector_is_passed_through() {
    // The identifier before `:` is `c`, which is not empty; the empty
    // selector is handed on unvalidated.
    let items = match parse_ids_with_ranges("a:all,b:1-5,c:") {
        Ok(v) => v,
        Err(_) => panic!("expected a parse"),
    };
    assert_eq!(items.len(), 3);
    assert_eq!(items[0].pages, None);
    assert_eq!(items[1].pages.as_deref(), Some("1-5"));
    assert_eq!(items[2].id, "c");
    assert_eq!(items[2].pages.as_deref(), Some(""));
}

#[test]
fn empty_identifier_fails_whole_parse() {
    match parse_ids_with_ranges("a:all,b:1-5, :3") {
        Err(RangeError::EmptyIdentifier(t)) => assert_eq!(t, ":3"),
        _ => panic!("expected an empty identifier"),
    }
    let err = match parse_ids_with_ranges(":all") {
        Err(e) => e,
        Ok(_) => panic!("expected a failure"),
    };
    assert_eq!(err.message(), "Empty ID found in: ':all'");
}

#[test]
fn missing_selector_wins_over_empty_identifier() {
    match parse_ids_with_ranges(":1,b") {
        Err(RangeError::MissingSelector(m)) => assert_eq!(m, vec!["b"]),
        _ => panic!("expected a missing selector"),
    }
}

#[test]
fn empty_input_fails() {
    for input in ["", " , , ", ",", "   "] {
        match parse_ids_with_ranges(input) {
            Err(e) => {
                assert!(matches!(e, RangeError::EmptyInput));
                assert_eq!(e.message(), "No item IDs provided");
            }
            Ok(_) => panic!("expected empty input"),
        }
    }
}

#[test]
fn parse_ids_trims_and_drops_empty() {
    assert_eq!(parse_ids(" a , ,b,, c "), vec!["a", "b", "c"]);
    assert!(parse_ids(" , ").is_empty());
    assert!(parse_ids("").is_empty());
    assert_eq!(parse_ids("\u{3000}x\t"), vec!["x"]);
}
