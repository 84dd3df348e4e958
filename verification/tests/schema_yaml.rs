use termotion::codes;
use termotion::diag::Diagnostic;
use termotion::includes::{include_list, include_path, load_merged, SourceFile, SourceRead};
use termotion::vars::{collect, expand, substitute, Variables};
use termotion::yaml::Yaml;

fn convert(v: &serde_yaml_ng::Value) -> Yaml {
    match v {
        serde_yaml_ng::Value::Null => Yaml::Null,
        serde_yaml_ng::Value::Bool(b) => Yaml::Bool(*b),
        serde_yaml_ng::Value::Number(n) => {
            if let Some(u) = n.as_u64() {
                Yaml::PosInt(u)
            } else if let Some(i) = n.as_i64() {
                Yaml::NegInt(i)
            } else {
                let f = n.as_f64().unwrap_or(0.0);
                Yaml::Float(f.to_bits(), n.to_string())
            }
        }
        serde_yaml_ng::Value::String(s) => Yaml::Str(s.clone()),
        serde_yaml_ng::Value::Sequence(items) => Yaml::Sequence(items.iter().map(convert).collect()),
        serde_yaml_ng::Value::Mapping(m) => {
            Yaml::Mapping(m.iter().map(|(k, v)| (convert(k), convert(v))).collect())
        }
        serde_yaml_ng::Value::Tagged(t) => {
            Yaml::Tagged(t.tag.to_string(), Box::new(convert(&t.value)))
        }
    }
}

fn value(src: &str) -> Yaml {
    convert(&serde_yaml_ng::from_str::<serde_yaml_ng::Value>(src).unwrap())
}

fn substituted(src: &str) -> Yaml {
    let mut v = value(src);
    let vars = collect(&v);
    substitute(&mut v, &vars).unwrap();
    v
}

fn text_at<'a>(v: &'a Yaml, key: &str) -> Option<&'a str> {
    v.get(key).and_then(|x| x.as_str())
}

fn items(v: &Yaml) -> &Vec<Yaml> {
    match v {
        Yaml::Sequence(items) => items,
        other => panic!("expected a sequence, got {other:?}"),
    }
}

#[test]
fn replaces_a_declared_variable() {
    let out = substituted("variables:\n  reason: coffee\ntext: '> {{ reason }}'\n");
    assert_eq!(text_at(&out, "text"), Some("> coffee"));
}

#[test]
fn tolerates_arbitrary_inner_whitespace() {
    let out = substituted("variables:\n  a: x\nt1: '{{a}}'\nt2: '{{   a   }}'\n");
    assert_eq!(text_at(&out, "t1"), Some("x"));
    assert_eq!(text_at(&out, "t2"), Some("x"));
}

#[test]
fn replaces_every_occurrence_including_inside_nested_sequences() {
    let out = substituted("variables:\n  u: zombocoder\ntimeline:\n  - text: '{{ u }}@{{ u }}'\n");
    let timeline = items(out.get("timeline").unwrap());
    assert_eq!(text_at(&timeline[0], "text"), Some("zombocoder@zombocoder"));
}

#[test]
fn substitutes_into_duration_strings() {
    let out = substituted("variables:\n  wait: 500ms\nduration: '{{ wait }}'\n");
    assert_eq!(text_at(&out, "duration"), Some("500ms"));
}

#[test]
fn provides_built_in_scene_and_canvas_variables() {
    let out = substituted(
        "metadata:\n  name: brb\ncanvas:\n  width: 1920\n  height: 1080\ntext: '{{ scene.name }} {{ canvas.width }}x{{ canvas.height }}'\n",
    );
    assert_eq!(text_at(&out, "text"), Some("brb 1920x1080"));
}

#[test]
fn user_variables_override_built_ins() {
    let out = substituted(
        "metadata:\n  name: brb\nvariables:\n  scene.name: custom\ntext: '{{ scene.name }}'\n",
    );
    assert_eq!(text_at(&out, "text"), Some("custom"));
}

#[test]
fn undefined_variables_are_a_hard_error() {
    let mut v = value("text: '{{ missing }}'\n");
    let vars = collect(&v);
    let err = substitute(&mut v, &vars).unwrap_err();
    assert_eq!(err.code, codes::UNDEFINED_VARIABLE);
    assert!(err.message.contains("missing"));
}

#[test]
fn unclosed_braces_are_left_alone_rather_than_erroring() {
    let out = substituted("text: 'a {{ b'\n");
    assert_eq!(text_at(&out, "text"), Some("a {{ b"));
}

#[test]
fn function_call_syntax_is_never_evaluated() {
    let mut v = value("text: '{{ shell(\"rm -rf /\") }}'\n");
    let vars = collect(&v);
    let err = substitute(&mut v, &vars).unwrap_err();
    assert_eq!(err.code, codes::UNDEFINED_VARIABLE);
}

#[test]
fn mapping_keys_are_not_substituted() {
    let out = substituted("variables:\n  k: nope\n'{{ k }}': value\n");
    assert!(out.get("{{ k }}").is_some());
}

#[test]
fn the_last_definition_of_a_variable_wins() {
    let mut vars = Variables::new();
    vars.insert("a".to_string(), "1".to_string());
    vars.insert("a".to_string(), "2".to_string());
    assert_eq!(vars.get("a"), Some("2"));
    assert_eq!(expand("x{{a}}y", &vars).unwrap(), "x2y");
    assert_eq!(expand("no braces here", &vars).unwrap(), "no braces here");
}

/// The canonical form of a path as the file system would give it: `.`
/// segments dropped.
fn canonical(path: &str) -> String {
    path.split('/').filter(|s| *s != ".").collect::<Vec<_>>().join("/")
}

/// Builds the table of every file the include graph of `root` reaches, from an
/// in-memory file system, the way a caller that reads real files does.
fn table(files: &[(&str, &str)], root: &str) -> Vec<SourceFile> {
    let mut out: Vec<SourceFile> = Vec::new();
    let mut queue = vec![root.to_string()];
    while let Some(path) = queue.pop() {
        if out.iter().any(|f| f.path == path) || out.len() > 64 {
            continue;
        }
        let found = files.iter().find(|(name, _)| *name == canonical(&path));
        let read = match found {
            Some((_, body)) => match serde_yaml_ng::from_str::<serde_yaml_ng::Value>(body) {
                Ok(v) => SourceRead::Parsed(convert(&v)),
                Err(e) => SourceRead::Invalid(e.to_string()),
            },
            None => SourceRead::Unreadable("No such file or directory".to_string()),
        };
        if let SourceRead::Parsed(y) = &read {
            for name in include_list(y) {
                queue.push(include_path(&path, &name));
            }
        }
        out.push(SourceFile {
            path: path.clone(),
            canonical: canonical(&path),
            exists: found.is_some(),
            read,
        });
    }
    out
}

fn load(files: &[(&str, &str)]) -> Result<Yaml, Diagnostic> {
    let t = table(files, "dir/scene.yaml");
    load_merged("dir/scene.yaml", &t)
}

#[test]
fn including_file_overrides_its_includes() {
    let merged = load(&[
        ("dir/base.yaml", "canvas:\n  width: 1280\n  height: 720\n"),
        ("dir/scene.yaml", "version: 1\nincludes:\n  - ./base.yaml\ncanvas:\n  width: 1920\n"),
    ])
    .unwrap();
    let canvas = merged.get("canvas").unwrap();
    assert_eq!(canvas.get("width").unwrap().as_u64(), Some(1920));
    assert_eq!(canvas.get("height").unwrap().as_u64(), Some(720));
}

#[test]
fn later_includes_win_over_earlier_ones() {
    let merged = load(&[
        ("dir/a.yaml", "canvas:\n  fps: 30\n"),
        ("dir/b.yaml", "canvas:\n  fps: 60\n"),
        ("dir/scene.yaml", "version: 1\nincludes:\n  - ./a.yaml\n  - ./b.yaml\n"),
    ])
    .unwrap();
    assert_eq!(merged.get("canvas").unwrap().get("fps").unwrap().as_u64(), Some(60));
}

#[test]
fn timelines_concatenate_with_includes_first() {
    let merged = load(&[
        ("dir/header.yaml", "timeline:\n  - type: write\n    text: header\n"),
        (
            "dir/scene.yaml",
            "version: 1\nincludes:\n  - ./header.yaml\ntimeline:\n  - type: write\n    text: body\n",
        ),
    ])
    .unwrap();
    let timeline = items(merged.get("timeline").unwrap());
    assert_eq!(timeline.len(), 2);
    assert_eq!(text_at(&timeline[0], "text"), Some("header"));
    assert_eq!(text_at(&timeline[1], "text"), Some("body"));
}

#[test]
fn includes_resolve_relative_to_the_including_file() {
    let merged = load(&[
        ("dir/common/prompt.yaml", "prompt:\n  user: zombocoder\n"),
        ("dir/scene.yaml", "version: 1\nincludes:\n  - ./common/prompt.yaml\n"),
    ])
    .unwrap();
    assert_eq!(text_at(merged.get("prompt").unwrap(), "user"), Some("zombocoder"));
}

#[test]
fn include_cycles_are_detected() {
    let err = load(&[
        ("dir/a.yaml", "includes:\n  - ./b.yaml\n"),
        ("dir/b.yaml", "includes:\n  - ./a.yaml\n"),
        ("dir/scene.yaml", "version: 1\nincludes:\n  - ./a.yaml\n"),
    ])
    .unwrap_err();
    assert_eq!(err.code, codes::INCLUDE_CYCLE);
}

#[test]
fn missing_includes_report_the_path() {
    let err = load(&[("dir/scene.yaml", "version: 1\nincludes:\n  - ./nope.yaml\n")]).unwrap_err();
    assert_eq!(err.code, codes::INCLUDE_NOT_FOUND);
    assert!(err.message.contains("nope.yaml"));
}

#[test]
fn the_includes_key_is_removed_after_merging() {
    let merged = load(&[
        ("dir/base.yaml", "canvas:\n  fps: 30\n"),
        ("dir/scene.yaml", "version: 1\nincludes:\n  - ./base.yaml\n"),
    ])
    .unwrap();
    assert!(merged.get("includes").is_none());
}

fn chain(last_level: u32, last_body: &str) -> Vec<(String, String)> {
    let mut files = vec![(
        "dir/scene.yaml".to_string(),
        "version: 1\nincludes:\n  - ./level1.yaml\n".to_string(),
    )];
    for level in 1..last_level {
        files.push((
            format!("dir/level{level}.yaml"),
            format!("includes:\n  - ./level{}.yaml\n", level + 1),
        ));
    }
    files.push((format!("dir/level{last_level}.yaml"), last_body.to_string()));
    files
}

#[test]
fn include_chains_deeper_than_the_cap_are_rejected() {
    let files = chain(8, "version: 1\n");
    let refs: Vec<(&str, &str)> = files.iter().map(|(a, b)| (a.as_str(), b.as_str())).collect();
    let err = load(&refs).unwrap_err();
    assert_eq!(err.code, codes::INCLUDE_TOO_DEEP);
}

#[test]
fn an_include_chain_exactly_at_the_cap_succeeds() {
    let files = chain(7, "canvas:\n  fps: 24\n");
    let refs: Vec<(&str, &str)> = files.iter().map(|(a, b)| (a.as_str(), b.as_str())).collect();
    let merged = load(&refs).unwrap();
    assert_eq!(merged.get("canvas").unwrap().get("fps").unwrap().as_u64(), Some(24));
}

#[test]
fn include_paths_are_relative_to_the_including_file() {
    assert_eq!(include_path("dir/scene.yaml", "./base.yaml"), "dir/./base.yaml");
    assert_eq!(include_path("scene.yaml", "base.yaml"), "base.yaml");
    assert_eq!(include_path("dir/scene.yaml", "/abs/x.yaml"), "/abs/x.yaml");
}

use termotion::spans::{span_index, SpanIndex};

const SOURCE: &str = "version: 1\ncanvas:\n  width: 1920\n  height: 1080\ntimeline:\n  - type: write\n    text: hello\n  - type: pause\n    duration: 0ms\n";

fn index(source: &str) -> SpanIndex {
    span_index(source).unwrap()
}

#[test]
fn finds_positions_of_nested_mapping_keys() {
    let pos = index(SOURCE).lookup("canvas.width").expect("canvas.width indexed");
    assert_eq!(pos.line, 3);
}

#[test]
fn finds_positions_inside_sequence_items() {
    let pos = index(SOURCE).lookup("timeline[1].duration").expect("indexed");
    assert_eq!(pos.line, 9);
}

#[test]
fn unknown_paths_return_none() {
    let idx = index(SOURCE);
    assert!(idx.lookup("canvas.nope").is_none());
    assert!(idx.lookup("timeline[9].duration").is_none());
}

#[test]
fn falls_back_to_the_nearest_indexed_ancestor() {
    let pos = index(SOURCE).lookup_or_ancestor("timeline[1].duration.inner.deep").unwrap();
    assert_eq!(pos.line, 9);
}

#[test]
fn malformed_yaml_produces_a_syntax_diagnostic() {
    let err = span_index("canvas:\n  - [unclosed\n").unwrap_err();
    assert_eq!(err.code, termotion::codes::YAML_SYNTAX);
}
