use artifact_resolver::identifier::ArtifactIdentifier;
use artifact_resolver::error::{ResolveError, SchemaRule};
use artifact_resolver::json::Json;
use artifact_resolver::listing::{matched_names_in, FilterMatchResult, MatchStatus, Suite};
use artifact_resolver::manifest::{decode_ids, decode_line, parse_line, parse_manifest};
use artifact_resolver::artifact::TestRecord;
use artifact_resolver::text::{chars_of, content_lines_of, is_space_char};

fn text(s: &str) -> Json {
    Json::Text(s.to_string())
}

fn object(members: Vec<(&str, Json)>) -> Json {
    Json::Record(members.into_iter().map(|(k, v)| (k.to_string(), v)).collect())
}

fn case(status: &str) -> Json {
    object(vec![("filter-match", object(vec![("status", text(status))]))])
}

#[test]
fn parse_copies_the_whole_tree() {
    let doc = Json::parse("{\"b\":[\"x\",1,null,true,{\"k\":\"v\"}],\"a\":\"s\",\"n\":-2.5e3}").unwrap();
    let members = match &doc {
        Json::Record(members) => members,
        _ => panic!("expected an object"),
    };
    assert_eq!(members.len(), 3);
    assert!(matches!(doc.member("a"), Some(Json::Text(s)) if s == "s"));
    assert!(matches!(doc.member("n"), Some(Json::Scalar)));
    assert!(doc.member("missing").is_none());
    match doc.member("b") {
        Some(Json::List(items)) => {
            assert_eq!(items.len(), 5);
            assert!(matches!(&items[0], Json::Text(s) if s == "x"));
            assert!(matches!(&items[1], Json::Scalar));
            assert!(matches!(&items[2], Json::Scalar));
            assert!(matches!(&items[3], Json::Scalar));
            assert!(matches!(items[4].member("k"), Some(Json::Text(s)) if s == "v"));
        }
        _ => panic!("expected an array"),
    }
}

#[test]
fn parse_reports_the_text_and_the_cause() {
    match Json::parse("[1, 2") {
        Err(ResolveError::Parse(e)) => {
            assert_eq!(e.content, "[1, 2");
            assert_eq!(e.cause, "EOF while parsing a list at line 1 column 5");
        }
        _ => panic!("expected a parse error"),
    }
    match Json::parse("") {
        Err(ResolveError::Parse(e)) => {
            assert_eq!(e.content, "");
            assert_eq!(e.cause, "EOF while parsing a value at line 1 column 0");
        }
        _ => panic!("expected a parse error"),
    }
    assert!(Json::parse("{\"a\":1} trailing").is_err());
}

#[test]
fn member_of_a_non_object_is_none() {
    assert!(text("x").member("x").is_none());
    assert!(Json::List(vec![text("x")]).member("x").is_none());
    assert!(Json::Scalar.member("x").is_none());
}

#[test]
fn member_takes_the_first_of_equal_keys() {
    let doc = object(vec![("k", text("first")), ("k", text("second"))]);
    assert!(matches!(doc.member("k"), Some(Json::Text(s)) if s == "first"));
}

#[test]
fn status_strings_are_told_apart() {
    assert_eq!(MatchStatus::decode(&case("matches")), MatchStatus::Matches);
    assert_eq!(MatchStatus::decode(&case("mismatch")), MatchStatus::Mismatch);
    assert_eq!(MatchStatus::decode(&case("Matches")), MatchStatus::Other);
    assert_eq!(MatchStatus::decode(&case("")), MatchStatus::Other);
    assert_eq!(MatchStatus::decode(&object(vec![])), MatchStatus::Other);
    assert_eq!(
        MatchStatus::decode(&object(vec![("filter-match", text("matches"))])),
        MatchStatus::Other
    );
    assert_eq!(
        MatchStatus::decode(&object(vec![("filter-match", object(vec![("status", Json::Scalar)]))])),
        MatchStatus::Other
    );
}

#[test]
fn suite_without_testcases_is_empty() {
    let suite = Suite::decode(&"s".to_string(), &object(vec![("other", Json::Scalar)]));
    assert_eq!(suite.name, "s");
    assert!(suite.cases.is_empty());
    let odd = Suite::decode(&"s".to_string(), &object(vec![("testcases", Json::List(vec![]))]));
    assert!(odd.cases.is_empty());
}

#[test]
fn listing_decodes_suites_and_cases() {
    let doc = object(vec![(
        "rust-suites",
        object(vec![
            ("one", object(vec![("testcases", object(vec![("a", case("matches")), ("b", case("mismatch"))]))])),
            ("two", object(vec![("testcases", object(vec![("c", case("matches")), ("a", case("matches"))]))])),
            ("three", object(vec![])),
        ]),
    )]);
    let listing = FilterMatchResult::decode(&doc).unwrap();
    assert_eq!(listing.suites.len(), 3);
    assert_eq!(listing.suites[0].name, "one");
    assert_eq!(listing.suites[0].cases.len(), 2);
    assert_eq!(listing.suites[0].cases[1].name, "b");
    assert_eq!(listing.suites[0].cases[1].status, MatchStatus::Mismatch);
    assert_eq!(listing.suites[2].cases.len(), 0);
    let names = listing.matched_names();
    assert_eq!(names.len(), 2);
    assert!(names.contains("a"));
    assert!(names.contains("c"));
    assert!(!names.contains("b"));
    assert_eq!(names.get(0), "a");
    assert_eq!(names.get(1), "c");
}

#[test]
fn listing_without_suites_is_a_schema_error() {
    assert_eq!(FilterMatchResult::decode(&object(vec![])).unwrap_err(), SchemaRule::SuitesObject);
    assert_eq!(
        FilterMatchResult::decode(&object(vec![("rust-suites", Json::List(vec![]))])).unwrap_err(),
        SchemaRule::SuitesObject
    );
    assert_eq!(FilterMatchResult::decode(&Json::List(vec![])).unwrap_err(), SchemaRule::SuitesObject);
    match matched_names_in("{\"rust_suites\":{}}") {
        Err(ResolveError::Schema(e)) => {
            assert_eq!(e.rule, SchemaRule::SuitesObject);
            assert_eq!(e.content, "{\"rust_suites\":{}}");
        }
        _ => panic!("expected a schema error"),
    }
}

#[test]
fn malformed_listing_is_a_parse_error() {
    match matched_names_in("{\"rust-suites\":") {
        Err(ResolveError::Parse(e)) => {
            assert_eq!(e.content, "{\"rust-suites\":");
            assert_eq!(e.cause, "EOF while parsing a value at line 1 column 15");
        }
        _ => panic!("expected a parse error"),
    }
}

#[test]
fn matched_names_collapse_across_suites() {
    let text = "{\"rust-suites\":{\"s1\":{\"testcases\":{\"t\":{\"filter-match\":{\"status\":\"matches\"}},\"u\":{\"filter-match\":{\"status\":\"mismatch\",\"reason\":\"expression\"}}}},\"s2\":{\"testcases\":{\"t\":{\"filter-match\":{\"status\":\"matches\"}},\"v\":{}}}}}";
    let names = matched_names_in(text).unwrap();
    assert_eq!(names.len(), 1);
    assert!(names.contains("t"));
    assert!(!names.contains("u"));
    assert!(!names.contains("v"));
}

#[test]
fn identifiers_must_be_strings() {
    let good = Json::List(vec![text("A"), text("B"), text("A")]);
    let set = decode_ids(&good).unwrap();
    assert_eq!(set.len(), 2);
    assert!(set.contains(&ArtifactIdentifier::new("A".to_string())));
    assert!(set.contains(&ArtifactIdentifier::new("B".to_string())));
    assert_eq!(decode_ids(&Json::List(vec![])).unwrap().len(), 0);
    assert!(decode_ids(&Json::List(vec![text("A"), Json::Scalar])).is_none());
    assert!(decode_ids(&text("A")).is_none());
}

#[test]
fn record_faults_come_in_order() {
    let ids = || Json::List(vec![text("X")]);
    assert_eq!(TestRecord::decode(&Json::List(vec![])).unwrap_err(), SchemaRule::RecordObject);
    assert_eq!(TestRecord::decode(&object(vec![])).unwrap_err(), SchemaRule::RecordName);
    assert_eq!(
        TestRecord::decode(&object(vec![("name", Json::Scalar), ("required", ids()), ("optional", ids())]))
            .unwrap_err(),
        SchemaRule::RecordName
    );
    assert_eq!(
        TestRecord::decode(&object(vec![("name", text("n")), ("optional", ids())])).unwrap_err(),
        SchemaRule::RecordRequired
    );
    assert_eq!(
        TestRecord::decode(&object(vec![("name", text("n")), ("required", ids()), ("optional", text("X"))]))
            .unwrap_err(),
        SchemaRule::RecordOptional
    );
    let record = TestRecord::decode(&object(vec![
        ("optional", Json::List(vec![])),
        ("extra", Json::Scalar),
        ("required", ids()),
        ("name", text("n")),
    ]))
    .unwrap();
    assert_eq!(record.name, "n");
    assert_eq!(record.required.len(), 1);
    assert_eq!(record.required.get(0).name(), "X");
    assert_eq!(record.optional.len(), 0);
}

#[test]
fn line_must_be_an_array_of_records() {
    assert_eq!(decode_line(&object(vec![])).unwrap_err(), SchemaRule::RecordArray);
    assert_eq!(decode_line(&Json::List(vec![text("x")])).unwrap_err(), SchemaRule::RecordObject);
    assert_eq!(decode_line(&Json::List(vec![])).unwrap().len(), 0);
    match parse_line("{\"name\":\"a\"}") {
        Err(ResolveError::Schema(e)) => {
            assert_eq!(e.rule, SchemaRule::RecordArray);
            assert_eq!(e.content, "{\"name\":\"a\"}");
        }
        _ => panic!("expected a schema error"),
    }
    match parse_line("[{\"name\":\"a\",\"required\":[]}]") {
        Err(ResolveError::Schema(e)) => assert_eq!(e.rule, SchemaRule::RecordOptional),
        _ => panic!("expected a schema error"),
    }
}

#[test]
fn manifest_skips_blank_lines_and_keeps_order() {
    let text = "\n   \n[{\"name\":\"a\",\"required\":[\"X\"],\"optional\":[]}]\r\n\t\n  [{\"name\":\"b\",\"required\":[],\"optional\":[\"Y\"]},{\"name\":\"c\",\"required\":[],\"optional\":[]}]  \n\n";
    let records = parse_manifest(text).unwrap();
    assert_eq!(records.len(), 3);
    assert_eq!(records[0].name, "a");
    assert_eq!(records[1].name, "b");
    assert_eq!(records[2].name, "c");
    assert_eq!(records[0].required.get(0).name(), "X");
    assert_eq!(records[1].optional.get(0).name(), "Y");
    assert_eq!(parse_manifest("").unwrap().len(), 0);
    assert_eq!(parse_manifest(" \n\r\n\u{a0}\n").unwrap().len(), 0);
}

#[test]
fn manifest_stops_at_the_first_bad_line() {
    let text = "[]\nfirst bad\nsecond bad\n";
    match parse_manifest(text) {
        Err(ResolveError::Parse(e)) => {
            assert_eq!(e.content, "first bad");
            assert_eq!(e.cause, "expected ident at line 1 column 2");
        }
        _ => panic!("expected a parse error"),
    }
    match parse_manifest("[]\n  [1]  \nnot json") {
        Err(ResolveError::Schema(e)) => {
            assert_eq!(e.rule, SchemaRule::RecordObject);
            assert_eq!(e.content, "[1]");
        }
        _ => panic!("expected a schema error"),
    }
}

#[test]
fn lines_are_trimmed_of_unicode_space() {
    let text = "\u{2003}alpha beta\u{3000}\n\n\u{feff}gamma\n\r\n  \u{1680}\u{85} \ndelta\r";
    assert_eq!(content_lines_of(text), vec!["alpha beta", "\u{feff}gamma", "delta"]);
    assert_eq!(content_lines_of("one line"), vec!["one line"]);
    assert_eq!(content_lines_of("a\rb\n"), vec!["a\rb"]);
    assert_eq!(content_lines_of(""), Vec::<String>::new());
    assert_eq!(content_lines_of("\n\n\n"), Vec::<String>::new());
    for text in ["", " x ", "a\n b\n\nc ", "\r\n\t é\u{2028}\n\u{200b}\n"] {
        let expected: Vec<String> =
            text.lines().map(|l| l.trim()).filter(|l| !l.is_empty()).map(|l| l.to_string()).collect();
        assert_eq!(content_lines_of(text), expected);
    }
}

#[test]
fn space_is_what_unicode_calls_white_space() {
    let mut c = '\0';
    loop {
        assert_eq!(is_space_char(c), c.is_whitespace(), "{:?}", c);
        if c == char::MAX {
            break;
        }
        c = match char::from_u32(c as u32 + 1) {
            Some(next) => next,
            None => '\u{e000}',
        };
    }
}

#[test]
fn characters_come_one_by_one() {
    assert_eq!(chars_of("héllo"), vec!['h', 'é', 'l', 'l', 'o']);
    assert_eq!(chars_of(""), Vec::<char>::new());
}
