use termotion::codes;
use termotion::diag::Position;
use termotion::loading::{check_document_version, classify, finish, prepare};
use termotion::includes::{SourceFile, SourceRead};
use termotion::raw::{DurationReading, RawAction, RawDuration, RawScenario};
use termotion::time::Time;
use termotion::resolve::ResolveContext;
use termotion::spans::{span_index, SpanIndex};
use termotion::yaml::Yaml;

fn convert(v: &serde_yaml_ng::Value) -> Yaml {
    match v {
        serde_yaml_ng::Value::Null => Yaml::Null,
        serde_yaml_ng::Value::Bool(b) => Yaml::Bool(*b),
        serde_yaml_ng::Value::Number(n) => match (n.as_u64(), n.as_i64()) {
            (Some(u), _) => Yaml::PosInt(u),
            (None, Some(i)) => Yaml::NegInt(i),
            _ => Yaml::Float(n.as_f64().unwrap_or(0.0).to_bits(), n.to_string()),
        },
        serde_yaml_ng::Value::String(s) => Yaml::Str(s.clone()),
        serde_yaml_ng::Value::Sequence(items) => Yaml::Sequence(items.iter().map(convert).collect()),
        serde_yaml_ng::Value::Mapping(m) => {
            Yaml::Mapping(m.iter().map(|(k, v)| (convert(k), convert(v))).collect())
        }
        serde_yaml_ng::Value::Tagged(t) => Yaml::Tagged(t.tag.to_string(), Box::new(convert(&t.value))),
    }
}

fn value(src: &str) -> Yaml {
    convert(&serde_yaml_ng::from_str::<serde_yaml_ng::Value>(src).unwrap())
}

#[test]
fn rejects_unsupported_versions_before_anything_else() {
    let err = check_document_version(&value("version: 2\ntimeline:\n  - type: nonsense\n")).unwrap_err();
    assert_eq!(err.code, codes::UNSUPPORTED_VERSION);
    assert!(err.message.contains('2'));
    assert_eq!(
        err.message,
        "scenario version 2 is not supported (this build understands version 1)"
    );
}

#[test]
fn requires_a_version_field() {
    let err = check_document_version(&value("timeline: []\n")).unwrap_err();
    assert_eq!(err.code, codes::MISSING_FIELD);
    assert_eq!(err.path.as_deref(), Some("version"));
    assert!(check_document_version(&value("version: 1\n")).is_ok());
}

#[test]
fn an_unknown_action_type_names_the_offender() {
    let err = classify(
        "timeline[0]: unknown variant `teleport`, expected one of `write`, `write_line`",
        Some(Position { line: 3, column: 11 }),
    );
    assert_eq!(err.code, codes::UNKNOWN_ACTION);
    assert!(err.message.contains("teleport"));
    assert!(err.hint.is_none());
    assert_eq!(err.position, Some(Position { line: 3, column: 11 }));
}

#[test]
fn a_planned_action_gets_a_hint() {
    let err = classify("timeline[0]: unknown variant `status`, expected one of `write`", None);
    assert_eq!(err.code, codes::UNKNOWN_ACTION);
    assert!(err.message.contains("status"));
    assert_eq!(
        err.hint.as_deref(),
        Some("`status` is defined in the product spec but is not implemented in this build yet.")
    );
}

#[test]
fn unknown_and_missing_fields_get_their_own_codes() {
    let unknown = classify("canvas: unknown field `widht`, expected one of `width`", None);
    assert_eq!(unknown.code, codes::UNKNOWN_FIELD);
    let missing = classify("timeline[0]: missing field `duration`", None);
    assert_eq!(missing.code, codes::MISSING_FIELD);
    let other = classify("invalid type: string \"x\", expected u32", Some(Position { line: 2, column: 3 }));
    assert_eq!(other.code, codes::YAML_SYNTAX);
    assert_eq!(other.message, "invalid YAML: invalid type: string \"x\", expected u32");
    assert!(other.position.is_some());
}

#[test]
fn semantic_errors_carry_file_line_and_column() {
    let source =
        "version: 1\ntimeline:\n  - type: write\n    text: hi\n  - type: pause\n    duration: 0ms\n";
    let index = span_index(source).unwrap();
    let table = vec![SourceFile {
        path: "scene.yaml".to_string(),
        canonical: "scene.yaml".to_string(),
        exists: true,
        read: SourceRead::Parsed(value(source)),
    }];
    let merged = prepare("scene.yaml", &table, &index).unwrap();
    assert!(merged.get("timeline").is_some());
    let raw = RawScenario {
        version: 1,
        metadata: None,
        includes: vec![],
        variables: vec![],
        canvas: None,
        theme: None,
        terminal: None,
        font: None,
        prompt: None,
        cursor: None,
        playback: None,
        output: None,
        random: None,
        timeline: vec![
            RawAction::Write { text: Some("hi".to_string()), spans: None, speed: None },
            RawAction::Pause {
                duration: RawDuration { text: "0ms".to_string(), reading: DurationReading::Read(Time::from_nanos(0)) },
            },
        ],
    };
    let errors = finish(raw, ResolveContext::default(), &index, "scene.yaml").unwrap_err();
    let first = &errors[0];
    assert_eq!(first.code, codes::DURATION_NOT_POSITIVE);
    assert_eq!(first.file.as_deref(), Some("scene.yaml"));
    let pos = first.position.expect("diagnostic must carry a position");
    assert_eq!(pos.line, 6);
}

#[test]
fn a_merge_error_is_reported_in_the_scenario_file() {
    let index = SpanIndex::new();
    let table = vec![SourceFile {
        path: "scene.yaml".to_string(),
        canonical: "scene.yaml".to_string(),
        exists: true,
        read: SourceRead::Parsed(value("version: 1\nincludes:\n  - ./missing.yaml\n")),
    }];
    let errors = prepare("scene.yaml", &table, &index).unwrap_err();
    assert_eq!(errors.len(), 1);
    assert_eq!(errors[0].code, codes::INCLUDE_NOT_FOUND);
    assert_eq!(errors[0].file.as_deref(), Some("scene.yaml"));
}
