use regextract::batch::{run_batch, run_extraction, BatchFailure, PatternDef, parse_definition};
use regextract::engine::{apply, ExtractionError};
use regextract::json::{entries_get, JsonValue};
use regextract::pattern::Matcher;

fn s(text: &str) -> String {
    text.to_string()
}

fn obj(entries: Vec<(&str, JsonValue)>) -> JsonValue {
    JsonValue::Object(entries.into_iter().map(|(k, v)| (s(k), v)).collect())
}

fn record(fields: Vec<(&str, &str)>) -> JsonValue {
    JsonValue::Object(
        fields.into_iter().map(|(k, v)| (s(k), JsonValue::Str(s(v)))).collect(),
    )
}

fn get<'a>(context: &'a JsonValue, key: &str) -> Option<&'a JsonValue> {
    match context {
        JsonValue::Object(entries) => entries_get(entries, key),
        _ => None,
    }
}

fn def(name: &str, regex: &str) -> JsonValue {
    obj(vec![("name", JsonValue::Str(s(name))), ("regex", JsonValue::Str(s(regex)))])
}

#[test]
fn two_matches_in_scan_order() {
    let mut context = obj(vec![]);
    let r = apply(&mut context, "id=42 id=7", "ids", "id=(?P<val>\\d+)");
    assert!(r.is_ok());
    let expected = JsonValue::Array(vec![
        record(vec![("val", "42")]),
        record(vec![("val", "7")]),
    ]);
    assert_eq!(get(&context, "ids"), Some(&expected));
}

#[test]
fn no_matches_yield_empty_array() {
    let mut context = obj(vec![]);
    let r = apply(&mut context, "no digits here", "ids", "id=(?P<val>\\d+)");
    assert!(r.is_ok());
    assert_eq!(get(&context, "ids"), Some(&JsonValue::Array(vec![])));
}

#[test]
fn invalid_pattern_reports_compile_error_and_leaves_context() {
    let mut context = obj(vec![("keep", JsonValue::Bool(true))]);
    let r = apply(&mut context, "id=42", "ids", "id=(?P<val>\\d+");
    match r {
        Err(ExtractionError::Compile(c)) => {
            assert_eq!(c.pattern, "id=(?P<val>\\d+");
            assert!(!c.message.is_empty());
        }
        other => panic!("expected a compile error, got {:?}", other),
    }
    assert_eq!(get(&context, "ids"), None);
    assert_eq!(get(&context, "keep"), Some(&JsonValue::Bool(true)));
}

#[test]
fn no_named_groups_yield_no_records() {
    let mut context = obj(vec![]);
    let r = apply(
        &mut context,
        "--verbose middle --verbose end --verbose",
        "flags",
        "--verbose",
    );
    assert!(r.is_ok());
    assert_eq!(get(&context, "flags"), Some(&JsonValue::Array(vec![])));
}

#[test]
fn unnamed_groups_are_ignored_entirely() {
    let mut context = obj(vec![]);
    let r = apply(&mut context, "a1 b2", "pairs", "(?P<letter>[ab])(\\d)");
    assert!(r.is_ok());
    let expected = JsonValue::Array(vec![
        record(vec![("letter", "a")]),
        record(vec![("letter", "b")]),
    ]);
    assert_eq!(get(&context, "pairs"), Some(&expected));
}

#[test]
fn group_without_match_is_omitted_from_record() {
    let mut context = obj(vec![]);
    let r = apply(&mut context, "xy", "alts", "(?P<a>x)|(?P<b>y)");
    assert!(r.is_ok());
    let expected = JsonValue::Array(vec![
        record(vec![("a", "x")]),
        record(vec![("b", "y")]),
    ]);
    assert_eq!(get(&context, "alts"), Some(&expected));
}

#[test]
fn target_not_object_is_refused() {
    let mut context = JsonValue::Str(s("not a map"));
    let r = apply(&mut context, "id=42", "ids", "id=(?P<val>\\d+)");
    assert_eq!(r, Err(ExtractionError::TargetNotObject));
    assert_eq!(context, JsonValue::Str(s("not a map")));
}

#[test]
fn recompilation_is_idempotent() {
    let m1 = Matcher::compile("(?P<a>x)(y)(?P<b>z)").unwrap();
    let m2 = Matcher::compile("(?P<a>x)(y)(?P<b>z)").unwrap();
    assert_eq!(m1.group_names(), m2.group_names());
    assert_eq!(m1.group_names(), &vec![s("a"), s("b")]);
    let text = "xyz then xyz again";
    assert_eq!(m1.extract(text), m2.extract(text));
}

#[test]
fn extraction_keeps_scan_order() {
    let m = Matcher::compile("(?P<d>\\d+)").unwrap();
    let rows = m.extract("a1b22c333");
    let values: Vec<&str> = rows.iter().map(|r| r[0].1.as_str()).collect();
    assert_eq!(values, vec!["1", "22", "333"]);
}

#[test]
fn captured_text_is_the_submatch_not_the_input() {
    let m = Matcher::compile("val=(?P<v>\\w+)").unwrap();
    let rows = m.extract("val=alpha");
    assert_eq!(rows, vec![vec![(s("v"), s("alpha"))]]);
}

#[test]
fn last_writer_wins_in_a_batch() {
    let mut context = obj(vec![
        ("regset", JsonValue::Array(vec![def("x", "(?P<a>1)"), def("x", "(?P<b>2)")])),
    ]);
    let failures = run_batch(&mut context, "12").unwrap();
    assert!(failures.is_empty());
    let expected = JsonValue::Array(vec![record(vec![("b", "2")])]);
    assert_eq!(get(&context, "x"), Some(&expected));
}

#[test]
fn extraction_touches_no_other_key() {
    let mut context = obj(vec![
        ("foo", JsonValue::Str(s("bar"))),
        ("regset", JsonValue::Array(vec![def("hits", "(?P<w>foo)")])),
    ]);
    let failures = run_batch(&mut context, "foo foo").unwrap();
    assert!(failures.is_empty());
    assert_eq!(get(&context, "foo"), Some(&JsonValue::Str(s("bar"))));
    let expected = JsonValue::Array(vec![
        record(vec![("w", "foo")]),
        record(vec![("w", "foo")]),
    ]);
    assert_eq!(get(&context, "hits"), Some(&expected));
}

#[test]
fn partial_failure_survives() {
    let mut context = obj(vec![
        ("regset", JsonValue::Array(vec![
            def("broken", "id=(?P<val>\\d+"),
            def("ids", "id=(?P<val>\\d+)"),
        ])),
    ]);
    let failures = run_batch(&mut context, "id=42 id=7").unwrap();
    assert_eq!(failures.len(), 1);
    assert_eq!(failures[0].index, 0);
    match &failures[0].error {
        ExtractionError::Compile(c) => assert_eq!(c.pattern, "id=(?P<val>\\d+"),
        other => panic!("expected a compile error, got {:?}", other),
    }
    assert_eq!(get(&context, "broken"), None);
    let expected = JsonValue::Array(vec![
        record(vec![("val", "42")]),
        record(vec![("val", "7")]),
    ]);
    assert_eq!(get(&context, "ids"), Some(&expected));
}

#[test]
fn missing_fields_are_reported_per_definition() {
    let mut context = obj(vec![
        ("regset", JsonValue::Array(vec![
            obj(vec![("name", JsonValue::Str(s("x")))]),
            obj(vec![("regex", JsonValue::Str(s("a")))]),
            JsonValue::Str(s("not an object")),
            def("ok", "(?P<c>c)"),
        ])),
    ]);
    let failures = run_batch(&mut context, "c").unwrap();
    let reported: Vec<(usize, &ExtractionError)> =
        failures.iter().map(|f| (f.index, &f.error)).collect();
    assert_eq!(reported.len(), 3);
    assert_eq!(reported[0], (0, &ExtractionError::MissingField(s("regex"))));
    assert_eq!(reported[1], (1, &ExtractionError::MissingField(s("name"))));
    assert_eq!(reported[2], (2, &ExtractionError::MissingField(s("name"))));
    let expected = JsonValue::Array(vec![record(vec![("c", "c")])]);
    assert_eq!(get(&context, "ok"), Some(&expected));
}

#[test]
fn non_string_field_counts_as_missing() {
    let item = obj(vec![
        ("name", JsonValue::Num(s("7"))),
        ("regex", JsonValue::Str(s("a"))),
    ]);
    assert_eq!(parse_definition(&item), Err(s("name")));
}

#[test]
fn parse_definition_reads_both_fields() {
    let item = def("ids", "id=(?P<val>\\d+)");
    assert_eq!(
        parse_definition(&item),
        Ok(PatternDef { name: s("ids"), regex: s("id=(?P<val>\\d+)") })
    );
}

#[test]
fn regset_that_is_not_an_array_is_ignored() {
    let mut context = obj(vec![("regset", JsonValue::Str(s("nope")))]);
    let failures = run_batch(&mut context, "anything").unwrap();
    assert!(failures.is_empty());
    assert_eq!(context, obj(vec![("regset", JsonValue::Str(s("nope")))]));
}

#[test]
fn absent_regset_passes_context_through() {
    let mut context = obj(vec![("n", JsonValue::Num(s("1.5")))]);
    let failures = run_batch(&mut context, "text").unwrap();
    assert!(failures.is_empty());
    assert_eq!(context, obj(vec![("n", JsonValue::Num(s("1.5")))]));
}

#[test]
fn run_batch_refuses_non_object_root() {
    let mut context = JsonValue::Array(vec![]);
    let r = run_batch(&mut context, "text");
    assert_eq!(r, Err(ExtractionError::TargetNotObject));
    assert_eq!(context, JsonValue::Array(vec![]));
}

#[test]
fn without_source_text_nothing_runs() {
    let mut context = obj(vec![
        ("regset", JsonValue::Array(vec![def("ids", "id=(?P<val>\\d+)")])),
    ]);
    let before = obj(vec![
        ("regset", JsonValue::Array(vec![def("ids", "id=(?P<val>\\d+)")])),
    ]);
    let failures = run_extraction(&mut context, None).unwrap();
    assert!(failures.is_empty());
    assert_eq!(context, before);
}

#[test]
fn with_source_text_the_batch_runs() {
    let mut context = obj(vec![
        ("regset", JsonValue::Array(vec![def("ids", "id=(?P<val>\\d+)")])),
    ]);
    let failures: Vec<BatchFailure> = run_extraction(&mut context, Some("id=5")).unwrap();
    assert!(failures.is_empty());
    let expected = JsonValue::Array(vec![record(vec![("val", "5")])]);
    assert_eq!(get(&context, "ids"), Some(&expected));
}
