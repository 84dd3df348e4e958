//! The loading pipeline around the document: the version gate, turning
//! deserializer messages into coded diagnostics, merging and substituting, and
//! locating diagnostics in the source.
use crate::codes;
use crate::diag::{code_of, diag_at, diags_view, error_view, hinted, DiagView, Diagnostic, Position};
use crate::includes::{load_merged, load_spec, SourceFile};
use crate::raw::{RawScenario, SUPPORTED_VERSION};
use crate::resolve::{loaded_result_view, resolve, resolve_spec, Loaded, LoadedView, ResolveContext};
use crate::spans::{ancestor_lookup, SpanIndex};
use crate::text::{append_decimal, contains_seq, contains_str, decimal};
use crate::vars::{collect, collect_spec, subst_spec, substitute, undefined_diag};
use crate::yaml::{as_u64_view, get_view, Yaml, YamlView};
use vstd::prelude::*;

verus! {

/// The version gate: a missing version, or one this build does not understand,
/// is reported before anything else.
pub open spec fn version_check_spec(version: Option<u64>) -> Result<(), DiagView> {
    match version {
        None => Err(
            hinted(
                diag_at(
                    codes::MISSING_FIELD,
                    "scenario is missing the required `version` field"@,
                    "version"@,
                ),
                "Add `version: 1` as the first line of the scenario."@,
            ),
        ),
        Some(v) => if v != SUPPORTED_VERSION {
            Err(
                diag_at(
                    codes::UNSUPPORTED_VERSION,
                    "scenario version "@ + decimal(v as nat) + " is not supported (this build understands version "@
                        + decimal(SUPPORTED_VERSION as nat) + ")"@,
                    "version"@,
                ),
            )
        } else {
            Ok(())
        },
    }
}

pub open spec fn unit_view(r: Result<(), Diagnostic>) -> Result<(), DiagView> {
    match r {
        Ok(()) => Ok(()),
        Err(d) => Err(d@),
    }
}

/// Checks the `version` field (absent, or as read from the document).
pub fn check_version(version: Option<u64>) -> (r: Result<(), Diagnostic>)
    ensures
        unit_view(r) == version_check_spec(version),
{
    match version {
        None => {
            proof {
                reveal_strlit("scenario is missing the required `version` field");
                reveal_strlit("version");
                reveal_strlit("Add `version: 1` as the first line of the scenario.");
            }
            Err(
                Diagnostic::error(
                    codes::MISSING_FIELD,
                    "scenario is missing the required `version` field",
                ).at_path("version").with_hint("Add `version: 1` as the first line of the scenario."),
            )
        },
        Some(v) => {
            if v != SUPPORTED_VERSION as u64 {
                proof {
                    reveal_strlit("scenario version ");
                    reveal_strlit(" is not supported (this build understands version ");
                    reveal_strlit(")");
                    reveal_strlit("version");
                }
                let mut msg = String::from_str("scenario version ");
                append_decimal(&mut msg, v);
                msg.append(" is not supported (this build understands version ");
                append_decimal(&mut msg, SUPPORTED_VERSION as u64);
                msg.append(")");
                Err(Diagnostic::error(codes::UNSUPPORTED_VERSION, msg.as_str()).at_path("version"))
            } else {
                Ok(())
            }
        },
    }
}

/// The version a merged document declares.
pub open spec fn document_version(v: YamlView) -> Option<u64> {
    match get_view(v, "version"@) {
        Some(x) => as_u64_view(x),
        None => None,
    }
}

/// The version gate on a merged document.
pub fn check_document_version(value: &Yaml) -> (r: Result<(), Diagnostic>)
    ensures
        unit_view(r) == version_check_spec(document_version(value.view_of())),
{
    proof {
        reveal_strlit("version");
    }
    let version = match value.get("version") {
        Some(x) => x.as_u64(),
        None => None,
    };
    check_version(version)
}

/// Action types that are planned but not implemented in this build.
pub open spec fn deferred_actions() -> Seq<Seq<char>> {
    seq!["status"@, "status_update"@, "progress"@, "spinner"@, "glitch"@, "flash"@]
}

/// The first deferred action type the text mentions.
pub open spec fn first_deferred(text: Seq<char>, names: Seq<Seq<char>>) -> Option<Seq<char>>
    decreases names.len(),
{
    if names.len() == 0 {
        None
    } else if contains_seq(text, names[0]) {
        Some(names[0])
    } else {
        first_deferred(text, names.drop_first())
    }
}

/// The most specific diagnostic a deserializer message supports: an unknown
/// action (with a hint for the planned ones), an unknown field, a missing field,
/// or plain invalid YAML.
pub open spec fn classify_spec(text: Seq<char>, position: Option<Position>) -> DiagView {
    if contains_seq(text, "unknown variant"@) {
        let d = DiagView {
            position,
            ..error_view(code_of(codes::UNKNOWN_ACTION), "unknown action type: "@ + text)
        };
        match first_deferred(text, deferred_actions()) {
            Some(name) => hinted(
                d,
                "`"@ + name + "` is defined in the product spec but is not implemented in this build yet."@,
            ),
            None => d,
        }
    } else if contains_seq(text, "unknown field"@) {
        DiagView { position, ..error_view(code_of(codes::UNKNOWN_FIELD), text) }
    } else if contains_seq(text, "missing field"@) {
        DiagView { position, ..error_view(code_of(codes::MISSING_FIELD), text) }
    } else {
        DiagView { position, ..error_view(code_of(codes::YAML_SYNTAX), "invalid YAML: "@ + text) }
    }
}

/// Turns a deserializer message (and where it points) into the most specific
/// diagnostic it supports, so users get `E004 unknown action` rather than a
/// generic parse failure.
#[verifier::loop_isolation(false)]
pub fn classify(text: &str, position: Option<Position>) -> (d: Diagnostic)
    ensures
        d@ == classify_spec(text@, position),
{
    proof {
        reveal_strlit("unknown variant");
        reveal_strlit("unknown action type: ");
        reveal_strlit("unknown field");
        reveal_strlit("missing field");
        reveal_strlit("invalid YAML: ");
        reveal_strlit("`");
        reveal_strlit("` is defined in the product spec but is not implemented in this build yet.");
        reveal_strlit("status");
        reveal_strlit("status_update");
        reveal_strlit("progress");
        reveal_strlit("spinner");
        reveal_strlit("glitch");
        reveal_strlit("flash");
    }
    if contains_str(text, "unknown variant") {
        let mut msg = String::from_str("unknown action type: ");
        msg.append(text);
        let d = Diagnostic::error(codes::UNKNOWN_ACTION, msg.as_str()).at_opt(position);
        let names: [&str; 6] = ["status", "status_update", "progress", "spinner", "glitch", "flash"];
        let ghost all = deferred_actions();
        let mut i: usize = 0;
        proof {
            assert(all.skip(0) =~= all);
        }
        while i < 6
            invariant
                i <= 6,
                all == deferred_actions(),
                forall|k: int| 0 <= k < 6 ==> #[trigger] names@[k]@ == all[k],
                first_deferred(text@, all) == first_deferred(text@, all.skip(i as int)),
            decreases 6 - i,
        {
            if contains_str(text, names[i]) {
                proof {
                    assert(all.skip(i as int)[0] == all[i as int]);
                    assert(all.skip(i as int).len() > 0);
                    assert(contains_seq(text@, all.skip(i as int)[0]));
                    assert(first_deferred(text@, all.skip(i as int)) == Some(all[i as int]));
                }
                let mut hint = String::from_str("`");
                hint.append(names[i]);
                hint.append("` is defined in the product spec but is not implemented in this build yet.");
                return d.with_hint(hint.as_str());
            }
            proof {
                assert(all.skip(i as int).drop_first() =~= all.skip(i + 1));
            }
            i = i + 1;
        }
        return d;
    }
    if contains_str(text, "unknown field") {
        return Diagnostic::error(codes::UNKNOWN_FIELD, text).at_opt(position);
    }
    if contains_str(text, "missing field") {
        return Diagnostic::error(codes::MISSING_FIELD, text).at_opt(position);
    }
    let mut msg = String::from_str("invalid YAML: ");
    msg.append(text);
    Diagnostic::error(codes::YAML_SYNTAX, msg.as_str()).at_opt(position)
}

/// A diagnostic located in `file`: its own position, or else the position of its
/// document path (or nearest recorded ancestor).
pub open spec fn attach_spec(d: DiagView, m: Map<Seq<char>, Position>, file: Seq<char>) -> DiagView {
    DiagView {
        position: match d.position {
            Some(p) => Some(p),
            None => match d.path {
                Some(p) => ancestor_lookup(m, p),
                None => None,
            },
        },
        file: Some(file),
        ..d
    }
}

/// Fills in file and position from the span index when the diagnostic carries a
/// document path but no location of its own.
pub fn attach_location(diag: Diagnostic, index: &SpanIndex, path: &str) -> (d: Diagnostic)
    ensures
        d@ == attach_spec(diag@, index@, path@),
{
    let position = match diag.position {
        Some(p) => Some(p),
        None => match &diag.path {
            Some(p) => index.lookup_or_ancestor(p.as_str()),
            None => None,
        },
    };
    diag.at_opt(position).in_file(path)
}

/// Reading a scenario up to the point where it is deserialized: its includes
/// merged, its variables substituted, its version checked. Merge and
/// substitution errors are reported in the scenario's file; a version error also
/// at its position.
pub open spec fn prepare_spec(path: Seq<char>, table: Seq<SourceFile>, m: Map<Seq<char>, Position>) -> Result<YamlView, Seq<DiagView>> {
    match load_spec(table, path, 0, Seq::empty()) {
        Err(d) => Err(seq![DiagView { file: Some(path), ..d }]),
        Ok(v) => match subst_spec(v, collect_spec(v)) {
            Err(n) => Err(seq![DiagView { file: Some(path), ..undefined_diag(n) }]),
            Ok(s) => match version_check_spec(document_version(s)) {
                Err(d) => Err(seq![attach_spec(d, m, path)]),
                Ok(()) => Ok(s),
            },
        },
    }
}

pub open spec fn prepared_view(r: Result<Yaml, Vec<Diagnostic>>) -> Result<YamlView, Seq<DiagView>> {
    match r {
        Ok(y) => Ok(y.view_of()),
        Err(v) => Err(diags_view(v@)),
    }
}

fn single(d: Diagnostic) -> (v: Vec<Diagnostic>)
    ensures
        diags_view(v@) == seq![d@],
{
    let mut v: Vec<Diagnostic> = Vec::new();
    v.push(d);
    proof {
        assert(diags_view(v@) =~= seq![d@]);
    }
    v
}

/// The merged, substituted, version-checked document of the scenario at `path`
/// (see `prepare_spec`); `table` holds the files its includes reach and `index`
/// the positions in its source.
pub fn prepare(path: &str, table: &[SourceFile], index: &SpanIndex) -> (r: Result<Yaml, Vec<Diagnostic>>)
    ensures
        prepared_view(r) == prepare_spec(path@, table@, index@),
{
    let mut value = match load_merged(path, table) {
        Ok(v) => v,
        Err(d) => {
            return Err(single(d.in_file(path)));
        },
    };
    let variables = collect(&value);
    match substitute(&mut value, &variables) {
        Ok(()) => {},
        Err(d) => {
            return Err(single(d.in_file(path)));
        },
    }
    match check_document_version(&value) {
        Ok(()) => Ok(value),
        Err(d) => Err(single(attach_location(d, index, path))),
    }
}

/// Every diagnostic located in `file` (see `attach_spec`).
pub open spec fn attach_all(ds: Seq<DiagView>, m: Map<Seq<char>, Position>, file: Seq<char>) -> Seq<DiagView> {
    Seq::new(ds.len(), |i: int| attach_spec(ds[i], m, file))
}

/// Resolving a deserialized scenario, its errors located in its file.
pub open spec fn finish_spec(raw: RawScenario, ctx: ResolveContext, m: Map<Seq<char>, Position>, path: Seq<char>) -> Result<LoadedView, Seq<DiagView>> {
    match resolve_spec(raw, ctx) {
        Ok(l) => Ok(l),
        Err(es) => Err(attach_all(es, m, path)),
    }
}

/// Resolves `raw` and locates every error in the scenario's source.
pub fn finish(raw: RawScenario, ctx: ResolveContext, index: &SpanIndex, path: &str) -> (r: Result<Loaded, Vec<Diagnostic>>)
    ensures
        loaded_result_view(r) == finish_spec(raw, ctx, index@, path@),
{
    match resolve(raw, ctx) {
        Ok(l) => Ok(l),
        Err(errors) => {
            let ghost es = diags_view(errors@);
            let mut out: Vec<Diagnostic> = Vec::new();
            let mut rest = errors;
            let ghost e0 = rest@;
            let n = rest.len();
            let mut i: usize = 0;
            proof {
                assert(e0.subrange(0, n as int) =~= e0);
            }
            while i < n
                invariant
                    i <= n == e0.len() == es.len(),
                    es == diags_view(e0),
                    rest@ == e0.subrange(i as int, n as int),
                    diags_view(out@) == attach_all(es, index@, path@).take(i as int),
                decreases n - i,
            {
                let d = rest.remove(0);
                proof {
                    assert(d == e0[i as int]);
                    assert(rest@ =~= e0.subrange(i + 1, n as int));
                }
                let ghost o0 = diags_view(out@);
                proof {
                    assert(es[i as int] == d@);
                }
                let a = attach_location(d, index, path);
                out.push(a);
                proof {
                    assert(diags_view(out@) =~= o0.push(a@));
                    assert(diags_view(out@) =~= attach_all(es, index@, path@).take(i + 1));
                }
                i = i + 1;
            }
            proof {
                assert(attach_all(es, index@, path@).take(n as int) =~= attach_all(es, index@, path@));
            }
            Err(out)
        },
    }
}

} // verus!
