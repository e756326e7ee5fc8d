use kb_mcp::parser::Frontmatter;
use kb_mcp::schema::{
    validate, FieldRule, FieldType, RawSchema, Schema, SchemaError, Violation,
};

fn texts(v: &toml::Value) -> Vec<String> {
    v.as_array().unwrap().iter().map(|t| t.as_str().unwrap().to_string()).collect()
}

fn rule(table: &toml::Value) -> FieldRule {
    let flag = |key: &str| table.get(key).and_then(|v| v.as_bool()).unwrap_or(false);
    let number =
        |key: &str| table.get(key).and_then(|v| v.as_integer()).map(|n| n as usize);
    FieldRule {
        required: flag("required"),
        field_type: table.get("type").map(|t| match t.as_str().unwrap() {
            "string" => FieldType::String,
            "integer" => FieldType::Integer,
            "date" => FieldType::Date,
            "array" => FieldType::Array,
            other => panic!("no such type: {other}"),
        }),
        pattern: table.get("pattern").map(|p| p.as_str().unwrap().to_string()),
        enum_values: table.get("enum").map(texts),
        min_length: number("min_length"),
        max_length: number("max_length"),
        allow_empty: flag("allow_empty"),
    }
}

fn compile(document: &str) -> Result<Schema, SchemaError> {
    let value: toml::Value = toml::from_str(document).unwrap();
    let mut raw = RawSchema { fields: Vec::new() };
    for (name, table) in value["fields"].as_table().unwrap() {
        raw.insert(name, rule(table));
    }
    Schema::compile(raw)
}

fn schema(document: &str) -> Schema {
    compile(document).unwrap()
}

fn fm() -> Frontmatter {
    Frontmatter::default()
}

#[test]
fn test_parse_minimal_schema() {
    let s = schema(
        r#"
        [fields.title]
        required = true
        type = "string"
        "#,
    );
    assert_eq!(s.fields.len(), 1);
    assert_eq!(s.fields[0].0, "title");
    assert!(s.fields[0].1.required);
    assert_eq!(s.fields[0].1.field_type, Some(FieldType::String));
}

#[test]
fn test_unknown_field_in_schema_is_rejected() {
    let err = compile(
        r#"
        [fields.bogus]
        required = true
        "#,
    )
    .expect_err("unknown field must fail");
    assert!(err.message().contains("unsupported field"));
}

#[test]
fn test_invalid_regex_is_rejected() {
    let err = compile(
        r#"
        [fields.title]
        pattern = '[unclosed'
        "#,
    )
    .expect_err("invalid regex must fail");
    assert!(err.message().contains("invalid regex"));
    assert!(matches!(err, SchemaError::InvalidRegex { .. }));
}

#[test]
fn test_integer_type_is_rejected_in_mvp() {
    let err = compile(
        r#"
        [fields.title]
        type = "integer"
        "#,
    )
    .expect_err("integer must be rejected in MVP");
    assert!(err.message().contains("not implemented"));
    assert!(err.message().contains("pattern"));
}

#[test]
fn test_date_type_is_rejected_in_mvp() {
    let err = compile(
        r#"
        [fields.date]
        type = "date"
        "#,
    )
    .expect_err("date must be rejected in MVP");
    assert!(err.message().contains("not implemented"));
}

#[test]
fn test_pattern_on_array_is_rejected() {
    let err = compile(
        r#"
        [fields.tags]
        type = "array"
        pattern = "^foo"
        "#,
    )
    .expect_err("pattern on array must fail");
    assert!(err.message().contains("pattern"));
    assert!(matches!(err, SchemaError::PatternOnArray { .. }));
}

#[test]
fn test_validate_missing_required() {
    let s = schema(
        r#"[fields.title]
required = true
type = "string""#,
    );
    let v = validate(&fm(), &s);
    assert_eq!(v.len(), 1);
    assert!(matches!(&v[0], Violation::MissingRequired { field } if field == "title"));
}

#[test]
fn test_validate_empty_string_is_missing_when_required() {
    let s = schema(
        r#"[fields.title]
required = true
type = "string""#,
    );
    let mut f = fm();
    f.title = Some(String::new());
    let v = validate(&f, &s);
    assert_eq!(v.len(), 1);
    assert!(matches!(&v[0], Violation::MissingRequired { .. }));
}

#[test]
fn test_validate_empty_string_allowed_with_allow_empty() {
    let s = schema(
        r#"[fields.title]
required = true
type = "string"
allow_empty = true"#,
    );
    let mut f = fm();
    f.title = Some(String::new());
    let v = validate(&f, &s);
    assert!(
        v.is_empty(),
        "allow_empty must suppress empty missing, got {v:?}"
    );
}

#[test]
fn test_validate_pattern_mismatch() {
    let s = schema(
        r#"[fields.date]
required = true
type = "string"
pattern = '^\d{4}-\d{2}-\d{2}$'"#,
    );
    let mut f = fm();
    f.date = Some("2026/04/19".into());
    let v = validate(&f, &s);
    assert_eq!(v.len(), 1);
    assert!(matches!(&v[0], Violation::PatternMismatch { .. }));
    assert_eq!(v[0].field(), "date");
}

#[test]
fn test_validate_pattern_match_ok() {
    let s = schema(
        r#"[fields.date]
pattern = '^\d{4}-\d{2}-\d{2}$'"#,
    );
    let mut f = fm();
    f.date = Some("2026-04-19".into());
    let v = validate(&f, &s);
    assert!(v.is_empty());
}

#[test]
fn test_validate_enum_miss() {
    let s = schema(
        r#"[fields.topic]
required = true
type = "string"
enum = ["mcp", "rag"]"#,
    );
    let mut f = fm();
    f.topic = Some("general".into());
    let v = validate(&f, &s);
    assert_eq!(v.len(), 1);
    assert!(matches!(&v[0], Violation::NotInEnum { .. }));
}

#[test]
fn test_validate_tags_empty_required() {
    let s = schema(
        r#"[fields.tags]
required = true
type = "array"
min_length = 1"#,
    );
    let v = validate(&fm(), &s);
    assert_eq!(v.len(), 1);
    assert!(matches!(&v[0], Violation::MissingRequired { field } if field == "tags"));
}

#[test]
fn test_validate_tags_length_out_of_range() {
    let s = schema(
        r#"[fields.tags]
type = "array"
max_length = 2"#,
    );
    let mut f = fm();
    f.tags = vec!["a".into(), "b".into(), "c".into()];
    let v = validate(&f, &s);
    assert_eq!(v.len(), 1);
    assert!(matches!(
        &v[0],
        Violation::LengthOutOfRange {
            actual: 3,
            max: Some(2),
            ..
        }
    ));
}

#[test]
fn test_validate_tags_enum_on_each_element() {
    let s = schema(
        r#"[fields.tags]
type = "array"
enum = ["mcp", "rag"]"#,
    );
    let mut f = fm();
    f.tags = vec!["mcp".into(), "random".into(), "rag".into()];
    let v = validate(&f, &s);
    assert_eq!(v.len(), 1);
    assert!(matches!(
        &v[0],
        Violation::NotInEnum { actual, .. } if actual == "random"
    ));
}

#[test]
fn test_validate_type_mismatch_string_vs_array() {
    let s = schema(
        r#"[fields.title]
type = "array""#,
    );
    let mut f = fm();
    f.title = Some("hi".into());
    let v = validate(&f, &s);
    assert_eq!(v.len(), 1);
    assert!(matches!(
        &v[0],
        Violation::TypeMismatch { expected, actual, .. }
            if expected == "array" && actual == "string"
    ));
}

#[test]
fn test_validate_multiple_violations() {
    let s = schema(
        r#"[fields.title]
required = true
type = "string"
min_length = 10

[fields.date]
required = true
type = "string"
pattern = '^\d{4}-\d{2}-\d{2}$'"#,
    );
    let mut f = fm();
    f.title = Some("hi".into());
    f.date = Some("bogus".into());
    let v = validate(&f, &s);
    assert_eq!(v.len(), 2);
    // in the order of the fields' names
    assert_eq!(v[0].field(), "date");
    assert_eq!(v[1].field(), "title");
}

#[test]
fn test_violation_message_missing() {
    let v = Violation::MissingRequired { field: "title".into() };
    assert!(v.message().contains("required"));
}

#[test]
fn test_violation_message_enum() {
    let v = Violation::NotInEnum {
        field: "topic".into(),
        actual: "x".into(),
        allowed: vec!["a".into(), "b".into()],
    };
    let m = v.message();
    assert!(m.contains("topic"));
    assert!(m.contains("[a, b]"));
}

#[test]
fn test_validate_ok_when_all_fields_valid() {
    let s = schema(
        r#"[fields.title]
required = true
type = "string"
min_length = 1

[fields.date]
required = true
type = "string"
pattern = '^\d{4}-\d{2}-\d{2}$'

[fields.topic]
required = true
type = "string"
enum = ["mcp", "rag", "ai"]

[fields.tags]
required = true
type = "array"
min_length = 1"#,
    );
    let mut f = fm();
    f.title = Some("Hello".into());
    f.date = Some("2026-04-19".into());
    f.topic = Some("mcp".into());
    f.tags = vec!["one".into()];
    let v = validate(&f, &s);
    assert!(v.is_empty(), "expected no violations, got {v:?}");
}

#[test]
fn every_violation_has_its_words() {
    let m = |v: Violation| v.message();
    assert_eq!(
        m(Violation::PatternMismatch {
            field: "date".into(),
            pattern: "^x$".into(),
            actual: "a\"b".into(),
        }),
        "date \"a\\\"b\" does not match pattern ^x$"
    );
    assert_eq!(
        m(Violation::TypeMismatch {
            field: "tags".into(),
            expected: "string".into(),
            actual: "array".into(),
        }),
        "tags expected string but got array"
    );
    assert_eq!(
        m(Violation::MissingRequired { field: "title".into() }),
        "title is required but missing (or empty)"
    );
    let length = |min, max| {
        m(Violation::LengthOutOfRange { field: "tags".into(), actual: 3, min, max })
    };
    assert!(length(Some(4), None).contains('4'));
    assert!(length(None, Some(2)).contains('2'));
    assert_ne!(length(Some(4), Some(9)), length(Some(4), None));
}

#[test]
fn characters_are_counted_not_bytes() {
    let s = schema(
        r#"[fields.title]
max_length = 3"#,
    );
    let mut f = fm();
    f.title = Some("日本語".into());
    assert!(validate(&f, &s).is_empty());
    f.title = Some("日本語!".into());
    assert_eq!(validate(&f, &s).len(), 1);
}

#[test]
fn a_rule_replaces_an_earlier_one() {
    let mut raw = RawSchema { fields: Vec::new() };
    let required = |required: bool| FieldRule {
        required,
        field_type: None,
        pattern: None,
        enum_values: None,
        min_length: None,
        max_length: None,
        allow_empty: false,
    };
    raw.insert("topic", required(true));
    raw.insert("date", required(true));
    raw.insert("topic", required(false));
    let names: Vec<&str> = raw.fields.iter().map(|f| f.0.as_str()).collect();
    assert_eq!(names, vec!["date", "topic"]);
    assert!(!raw.fields[1].1.required);
}

#[test]
fn a_message_has_one_line() {
    let v = Violation::NotInEnum {
        field: "topic".into(),
        actual: "x".into(),
        allowed: vec!["a\nb".into(), "c\rd".into()],
    };
    assert_eq!(v.message(), "topic \"x\" is not in enum [a\\nb, c\\rd]");
    let v = Violation::PatternMismatch {
        field: "to\npic".into(),
        pattern: "^a\n$".into(),
        actual: "x\ny".into(),
    };
    assert_eq!(v.message(), "to\\npic \"x\\ny\" does not match pattern ^a\\n$");
}
