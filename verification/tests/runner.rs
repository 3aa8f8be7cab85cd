use rss::json::JsonValue;
use rss::metadata::metadata_field;
use rss::runner::{
    candidate_record, pending_triage,
    expects_sax_error, is_supported_version, supported_versions, Outcome, RoundTrip, ScreenOutcome, ScreenRoundTrip,
    ScreenSummary, Summary,
};
use rss::triage::prior_triage;
use rss::{gofeed, structural};

fn args(items: &[&str]) -> Vec<String> {
    items.iter().map(|a| a.to_string()).collect()
}

fn s(text: &str) -> JsonValue {
    JsonValue::String(text.to_string())
}

fn obj(pairs: Vec<(&str, JsonValue)>) -> JsonValue {
    JsonValue::Object(pairs.into_iter().map(|(k, v)| (k.to_string(), v)).collect())
}

#[test]
fn gofeed_arguments_are_read() {
    let a = gofeed::parse_args(&args(&[
        "--gofeed", "g", "--source-revision", "s1", "--crate-revision", "c", "--report", "r.json", "--gofeed", "g2",
    ]))
    .unwrap();
    assert_eq!(a.gofeed, "g2");
    assert_eq!(a.source_revision, "s1");
    assert_eq!(a.crate_revision, "c");
    assert_eq!(a.report, "r.json");
}

#[test]
fn gofeed_argument_errors() {
    let err = |items: &[&str]| gofeed::parse_args(&args(items)).err().unwrap();
    assert_eq!(err(&["--gofeed"]), "missing value for --gofeed");
    assert_eq!(err(&["--verbose", "1"]), "unknown argument: --verbose");
    assert_eq!(err(&[]), "missing --gofeed");
    assert_eq!(err(&["--gofeed", "g"]), "missing --source-revision");
    assert_eq!(err(&["--gofeed", "g", "--source-revision", "s"]), "missing --crate-revision");
    assert_eq!(err(&["--gofeed", "g", "--source-revision", "s", "--crate-revision", "c"]), "missing --report");
    assert_eq!(err(&["--report", "r", "--bad"]), "missing value for --bad");
}

#[test]
fn structural_arguments_are_read() {
    let a = structural::parse_args(&args(&[
        "--root", "/corpus", "--include", "a", "--mode", "feedvalidator", "--include", "b",
        "--source-repository", "repo", "--source-revision", "rev", "--crate-revision", "c", "--report", "out.json",
    ]))
    .unwrap();
    assert_eq!(a.root, "/corpus");
    assert_eq!(a.includes, vec!["a".to_string(), "b".to_string()]);
    assert_eq!(a.mode, "feedvalidator");
    assert_eq!(a.source_repository, "repo");
    assert_eq!(a.source_revision, "rev");
    assert_eq!(a.crate_revision, "c");
    assert_eq!(a.report, "out.json");
}

#[test]
fn structural_argument_errors() {
    let err = |items: &[&str]| structural::parse_args(&args(items)).err().unwrap();
    assert_eq!(err(&["--root"]), "missing value for --root");
    assert_eq!(err(&["--x", "y"]), "unknown argument: --x");
    assert_eq!(err(&["--mode", "feedvalidator"]), "at least one --include is required");
    assert_eq!(err(&["--include", "a"]), "missing --mode");
    assert_eq!(err(&["--include", "a", "--mode", "other"]), "unsupported mode: other");
    assert_eq!(err(&["--include", "a", "--mode", "feedparser-wellformed"]), "missing --root");
    assert_eq!(
        err(&["--include", "a", "--mode", "feedvalidator", "--root", "r"]),
        "missing --source-repository"
    );
    assert_eq!(
        err(&[
            "--include", "a", "--mode", "feedvalidator", "--root", "r", "--source-repository", "x",
            "--source-revision", "y", "--crate-revision", "z",
        ]),
        "missing --report"
    );
}

#[test]
fn metadata_fields_are_found() {
    let text = "<!--\r\nDescription: a channel with a title  -->\r\nExpect: SAXError -->-->\n-->\n<rss/>";
    assert_eq!(metadata_field(text, "Description"), Some("a channel with a title".to_string()));
    assert_eq!(metadata_field(text, "Expect"), Some("SAXError".to_string()));
    assert_eq!(metadata_field(text, "Missing"), None);
    assert_eq!(metadata_field("Expect:   -->\nExpect: later", "Expect"), None);
    assert_eq!(metadata_field("x Note:a:b", "Note"), Some("a:b".to_string()));
    assert_eq!(metadata_field("", "Note"), None);
}

#[test]
fn prior_triage_at_the_same_revision() {
    let report = obj(vec![
        ("source", obj(vec![("revision", s("abc"))])),
        (
            "inventory",
            JsonValue::Array(vec![
                obj(vec![("fixture", s("a.xml")), ("triage", obj(vec![("status", s("confirmed"))]))]),
                obj(vec![("fixture", s("b.xml")), ("automatic_status", s("pass"))]),
                obj(vec![("fixture", JsonValue::Null), ("triage", s("x"))]),
                obj(vec![("fixture", s("c.xml")), ("triage", JsonValue::Null)]),
            ]),
        ),
    ]);
    let kept = prior_triage(&report, "progress/gofeed.json", "abc").unwrap();
    assert_eq!(kept.len(), 2);
    assert_eq!(kept[0].0, "a.xml");
    assert!(matches!(kept[0].1, JsonValue::Object(_)));
    assert_eq!(kept[1].0, "c.xml");
    assert!(matches!(kept[1].1, JsonValue::Null));
    assert!(prior_triage(&obj(vec![("source", obj(vec![("revision", s("abc"))]))]), "r", "abc").unwrap().is_empty());
}

#[test]
fn prior_triage_at_another_revision_is_refused() {
    let report = obj(vec![("source", obj(vec![("revision", s("old"))]))]);
    assert_eq!(
        prior_triage(&report, "progress/gofeed.json", "new").err().unwrap(),
        "progress/gofeed.json records source revision old; refusing to reuse triage state for new"
    );
    assert_eq!(
        prior_triage(&obj(vec![]), "r.json", "new").err().unwrap(),
        "r.json records source revision ; refusing to reuse triage state for new"
    );
}

#[test]
fn supported_versions_are_listed() {
    assert_eq!(supported_versions(), vec!["0.9", "0.90", "0.91", "0.92", "1.0", "2.0"]);
    assert!(is_supported_version("2.0"));
    assert!(is_supported_version("0.9"));
    assert!(!is_supported_version("0.93"));
    assert!(!is_supported_version(""));
    assert!(!is_supported_version("2.0 "));
}

#[test]
fn gofeed_outcomes_give_findings_and_counts() {
    let mut summary = Summary::new();
    summary.record_excluded();
    let found = summary.record(Outcome::ParseFailed("bad xml".into()));
    assert_eq!(found.len(), 1);
    assert_eq!(found[0].kind, "parse-error");
    assert_eq!(found[0].details, vec!["bad xml".to_string()]);
    assert!(summary.record(Outcome::Parsed(vec![], RoundTrip::Same)).is_empty());
    let found = summary.record(Outcome::Parsed(vec!["a: actual=1 expected=2".into()], RoundTrip::Changed));
    assert_eq!(found.len(), 2);
    assert_eq!(found[0].kind, "field-mismatch");
    assert_eq!(found[0].details, vec!["a: actual=1 expected=2".to_string()]);
    assert_eq!(found[1].kind, "roundtrip-mismatch");
    assert_eq!(found[1].details, vec!["serialized output parses but changes the Channel value".to_string()]);
    let found = summary.record(Outcome::Parsed(vec![], RoundTrip::WriteFailed("w".into())));
    assert_eq!((found[0].kind.as_str(), found[0].details.clone()), ("serialize-error", vec!["w".to_string()]));
    let found = summary.record(Outcome::Parsed(vec![], RoundTrip::ReparseFailed("r".into())));
    assert_eq!((found[0].kind.as_str(), found[0].details.clone()), ("roundtrip-parse-error", vec!["r".to_string()]));
    assert_eq!(
        (
            summary.total(),
            summary.excluded(),
            summary.passed(),
            summary.parse_errors(),
            summary.field_mismatches(),
            summary.roundtrip_errors(),
            summary.roundtrip_mismatches()
        ),
        (6, 1, 1, 1, 1, 2, 1)
    );
}

#[test]
fn sax_error_expectations() {
    assert!(expects_sax_error("feedvalidator", Some("SAXError")));
    assert!(expects_sax_error("feedvalidator", Some("SAXError: not well-formed")));
    assert!(!expects_sax_error("feedvalidator", Some("SAXErr")));
    assert!(!expects_sax_error("feedvalidator", Some(" SAXError")));
    assert!(!expects_sax_error("feedvalidator", None));
    assert!(!expects_sax_error("feedparser-wellformed", Some("SAXError")));
}

#[test]
fn screen_outcomes_give_findings_and_counts() {
    let mut summary = ScreenSummary::new();
    let found = summary.record("feedvalidator", Some("SAXError"), ScreenOutcome::ParseFailed("e".into()));
    assert!(found.is_empty());
    let found = summary.record("feedparser-wellformed", Some("SAXError"), ScreenOutcome::ParseFailed("e".into()));
    assert_eq!((found[0].kind.as_str(), found[0].details.as_str(), found[0].extra.len()), ("parse-error", "e", 0));
    let found = summary.record(
        "feedvalidator",
        Some("SAXError"),
        ScreenOutcome::Parsed(ScreenRoundTrip::Changed { before: "b".into(), after: "a".into(), serialized: "s".into() }),
    );
    assert_eq!(found.len(), 2);
    assert_eq!(found[0].kind, "accepted-expected-sax-error");
    assert_eq!(found[0].details, "fixture expects the validator XML parser to report SAXError");
    assert_eq!(found[1].kind, "roundtrip-mismatch");
    assert_eq!(
        found[1].extra,
        vec![
            ("before".to_string(), "b".to_string()),
            ("after".to_string(), "a".to_string()),
            ("serialized".to_string(), "s".to_string())
        ]
    );
    let found = summary.record(
        "feedvalidator",
        None,
        ScreenOutcome::Parsed(ScreenRoundTrip::ReparseFailed { error: "x".into(), serialized: "s".into() }),
    );
    assert_eq!(found[0].kind, "roundtrip-parse-error");
    assert_eq!(found[0].extra, vec![("serialized".to_string(), "s".to_string())]);
    assert!(summary.record("feedvalidator", None, ScreenOutcome::Parsed(ScreenRoundTrip::Same)).is_empty());
    let found = summary.record("feedvalidator", None, ScreenOutcome::Parsed(ScreenRoundTrip::WriteFailed("w".into())));
    assert_eq!((found[0].kind.as_str(), found[0].details.as_str()), ("serialize-error", "w"));
    assert_eq!(
        (summary.passed(), summary.candidates(), summary.parse_errors(), summary.roundtrip_errors()),
        (2, 4, 2, 3)
    );
}

#[test]
fn prior_triage_keeps_the_last_record_of_a_fixture() {
    let report = obj(vec![
        ("source", obj(vec![("revision", s("abc"))])),
        (
            "inventory",
            JsonValue::Array(vec![
                obj(vec![("fixture", s("a.xml")), ("triage", s("first"))]),
                obj(vec![("fixture", s("b.xml")), ("triage", s("b"))]),
                obj(vec![("fixture", s("a.xml")), ("triage", s("second"))]),
            ]),
        ),
    ]);
    let kept = prior_triage(&report, "r", "abc").unwrap();
    assert_eq!(kept.len(), 2);
    assert_eq!(kept[0].0, "a.xml");
    assert!(matches!(kept[0].1, JsonValue::String(t) if t == "second"));
    assert_eq!(kept[1].0, "b.xml");
}

#[test]
fn candidate_records_keep_or_start_triage() {
    let record = candidate_record("a.xml", "2.0", vec![s("f")], None);
    let JsonValue::Object(es) = record else { panic!("not an object") };
    let keys: Vec<&str> = es.iter().map(|(k, _)| k.as_str()).collect();
    assert_eq!(keys, vec!["fixture", "version", "automatic_status", "automatic_findings", "triage"]);
    assert!(matches!(&es[0].1, JsonValue::String(f) if f == "a.xml"));
    assert!(matches!(&es[2].1, JsonValue::String(f) if f == "candidate"));
    assert!(matches!(&es[3].1, JsonValue::Array(v) if v.len() == 1));
    let JsonValue::Object(t) = &es[4].1 else { panic!("no triage") };
    assert_eq!(t.len(), 3);
    assert!(matches!(&t[0].1, JsonValue::String(p) if p == "pending"));
    let record = candidate_record("a.xml", "2.0", vec![], Some(s("kept")));
    let JsonValue::Object(es) = record else { panic!("not an object") };
    assert!(matches!(&es[4].1, JsonValue::String(k) if k == "kept"));
    assert!(matches!(pending_triage(), JsonValue::Object(v) if v.len() == 3));
}
