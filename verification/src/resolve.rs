//! Resolution: a raw scenario plus overrides, project defaults and the chosen
//! theme become a fully concrete scenario and output configuration, or the
//! complete list of what is wrong with it.
use crate::codes;
use crate::color::{color_error_message, parse_color, spec_parse_color, Color};
use crate::config::{
    default_palette, f32_bits_le_zero, BackgroundConfig, CanvasConfig, CanvasView, TerminalConfig,
    DEFAULT_CANVAS_HEIGHT, DEFAULT_CANVAS_WIDTH, DEFAULT_FPS, f32_bits_not_positive, CursorConfig, FontConfig, FontView,
    OutputConfig, OutputView, Palette, PlaybackConfig, PromptConfig, PromptView,
    DEFAULT_FONT_SIZE_BITS, DEFAULT_FONT_WEIGHT, DEFAULT_LINE_HEIGHT_BITS, DEFAULT_QUALITY,
    DEFAULT_TERMINAL_MARGIN, MAX_CANVAS_DIMENSION, MAX_QUALITY_H264, MAX_QUALITY_VP9, format_name,
    Codec, OutputFormat,
};
use crate::terminal::{default_cursor_blink, CursorStyle};
use crate::geom::{Padding, Rect, Size};
use crate::grid::Overflow;
use crate::diag::{code_of, diag_at, diags_view, hinted, opt_view, push_diag, DiagView, Diagnostic};
use crate::project::{output_rel, themes_rel, ProjectConfig, ProjectDefaults};
use crate::raw::{
    DurationReading, RawAction, RawCanvas, RawCursor, RawDuration, RawFont, RawOutput, RawScenario, RawSpan, RawTerminal,
    RawThemeRef,
};
use crate::scenario::{
    actions_view, runs_view, Action, ActionView, ClearEffect, Metadata, Scenario, ScenarioView,
    TextRun,
};
use crate::theme::{load_theme, load_theme_spec, ThemeFile};
use crate::paths::{file_name, file_name_of, join_path, joined};
use crate::text::{
    append_decimal, append_signed, decimal, signed_decimal, str_chars, str_eq, trimmed,
};
use crate::time::{
    duration_error_message, Fps,
    Time,
};
use vstd::prelude::*;

verus! {

/// `timeline[index].field`.
pub open spec fn step_path(index: nat, field: Seq<char>) -> Seq<char> {
    "timeline["@ + decimal(index) + "]."@ + field
}

fn step_path_string(index: usize, field: &str) -> (s: String)
    ensures
        s@ == step_path(index as nat, field@),
{
    proof {
        reveal_strlit("timeline[");
        reveal_strlit("].");
    }
    let mut s = String::from_str("timeline[");
    append_decimal(&mut s, index as u64);
    s.append("].");
    s.append(field);
    s
}

/// A duration where zero is allowed: its nanoseconds as read, or zero and a
/// `BAD_DURATION` error at `path` saying why the text is not a duration.
pub open spec fn duration_or_zero_spec(d: RawDuration, path: Seq<char>) -> (u64, Seq<DiagView>) {
    match d.reading {
        DurationReading::Read(t) => (t.0, Seq::empty()),
        DurationReading::Unreadable(e) => (
            0,
            seq![diag_at(codes::BAD_DURATION, duration_error_message(e.fault(), e.text()), path)],
        ),
    }
}

/// A duration that must be positive: as above, plus a `DURATION_NOT_POSITIVE`
/// error when it comes out zero.
pub open spec fn positive_duration_spec(d: RawDuration, path: Seq<char>) -> (u64, Seq<DiagView>) {
    let (t, e) = duration_or_zero_spec(d, path);
    if t == 0 {
        (0, e.push(diag_at(codes::DURATION_NOT_POSITIVE, path + " must be greater than 0"@, path)))
    } else {
        (t, e)
    }
}

fn duration_or_zero(dur: &RawDuration, path: &str, errors: &mut Vec<Diagnostic>) -> (t: Time)
    ensures
        t.0 == duration_or_zero_spec(*dur, path@).0,
        diags_view(final(errors)@) == diags_view(old(errors)@) + duration_or_zero_spec(
            *dur,
            path@,
        ).1,
{
    match &dur.reading {
        DurationReading::Read(time) => {
            proof {
                assert(diags_view(errors@) + Seq::<DiagView>::empty() =~= diags_view(errors@));
            }
            *time
        },
        DurationReading::Unreadable(err) => {
            let ghost e0 = diags_view(errors@);
            let msg = err.message();
            let d = Diagnostic::error(codes::BAD_DURATION, msg.as_str()).at_path(path);
            push_diag(errors, d);
            proof {
                assert(diags_view(errors@) =~= e0 + duration_or_zero_spec(*dur, path@).1);
            }
            Time::zero()
        },
    }
}

fn positive_duration(dur: &RawDuration, path: &str, errors: &mut Vec<Diagnostic>) -> (t: Time)
    ensures
        t.0 == positive_duration_spec(*dur, path@).0,
        diags_view(final(errors)@) == diags_view(old(errors)@) + positive_duration_spec(
            *dur,
            path@,
        ).1,
{
    let ghost e0 = diags_view(errors@);
    let time = duration_or_zero(dur, path, errors);
    if time.0 == 0 {
        proof {
            reveal_strlit(" must be greater than 0");
        }
        let mut msg = String::from_str(path);
        msg.append(" must be greater than 0");
        let d = Diagnostic::error(codes::DURATION_NOT_POSITIVE, msg.as_str()).at_path(path);
        push_diag(errors, d);
        proof {
            assert(diags_view(errors@) =~= e0 + positive_duration_spec(*dur, path@).1);
        }
    }
    time
}

/// A palette color by name, or a literal color.
pub open spec fn palette_color_spec(name: Seq<char>, p: Palette) -> Option<Color> {
    if name == "foreground"@ {
        Some(p.foreground)
    } else if name == "background"@ {
        Some(p.background)
    } else if name == "command"@ {
        Some(p.command)
    } else if name == "cursor"@ {
        Some(p.cursor)
    } else if name == "success"@ {
        Some(p.success)
    } else if name == "warning"@ {
        Some(p.warning)
    } else if name == "error"@ {
        Some(p.error)
    } else if name == "muted"@ {
        Some(p.muted)
    } else {
        match spec_parse_color(name) {
            Ok(c) => Some(c),
            Err(_) => None,
        }
    }
}

/// Resolves a palette name, or a literal hex color.
pub fn palette_color(name: &str, palette: &Palette) -> (c: Option<Color>)
    ensures
        c == palette_color_spec(name@, *palette),
{
    if str_eq(name, "foreground") {
        Some(palette.foreground)
    } else if str_eq(name, "background") {
        Some(palette.background)
    } else if str_eq(name, "command") {
        Some(palette.command)
    } else if str_eq(name, "cursor") {
        Some(palette.cursor)
    } else if str_eq(name, "success") {
        Some(palette.success)
    } else if str_eq(name, "warning") {
        Some(palette.warning)
    } else if str_eq(name, "error") {
        Some(palette.error)
    } else if str_eq(name, "muted") {
        Some(palette.muted)
    } else {
        match parse_color(name) {
            Ok(c) => Some(c),
            Err(_) => None,
        }
    }
}

pub open spec fn color_hint() -> Seq<char> {
    "Use a palette name (foreground, warning, error, success, muted, command, cursor) or a hex value like `#39FF14`."@
}

/// `timeline[index].spans[i].color`.
pub open spec fn span_color_path(index: nat, i: nat) -> Seq<char> {
    step_path(index, "spans["@ + decimal(i) + "].color"@)
}

/// The run a span becomes: its text, and its color resolved when it names one.
pub open spec fn span_run(s: RawSpan, p: Palette) -> (Seq<char>, Option<Color>) {
    (
        s.text@,
        match s.color {
            Some(name) => palette_color_spec(name@, p),
            None => None,
        },
    )
}

/// The errors for spans whose color names nothing, in order.
pub open spec fn span_errors(index: nat, spans: Seq<RawSpan>, p: Palette) -> Seq<DiagView>
    decreases spans.len(),
{
    if spans.len() == 0 {
        Seq::empty()
    } else {
        let before = span_errors(index, spans.drop_last(), p);
        let i = (spans.len() - 1) as nat;
        match spans.last().color {
            Some(name) => if palette_color_spec(name@, p) is None {
                before.push(
                    hinted(
                        diag_at(
                            codes::BAD_COLOR,
                            "unknown color `"@ + name@ + "`"@,
                            span_color_path(index, i),
                        ),
                        color_hint(),
                    ),
                )
            } else {
                before
            },
            None => before,
        }
    }
}

/// The runs a `write` produces: one per span, or a single uncolored run of the
/// plain text (empty when there is none).
pub open spec fn spans_spec(
    index: nat,
    text: Option<String>,
    spans: Option<Vec<RawSpan>>,
    p: Palette,
) -> (Seq<(Seq<char>, Option<Color>)>, Seq<DiagView>) {
    match spans {
        Some(v) => (Seq::new(v@.len(), |i: int| span_run(v@[i], p)), span_errors(index, v@, p)),
        None => (
            seq![(
                match text {
                    Some(t) => t@,
                    None => Seq::empty(),
                },
                None,
            )],
            Seq::empty(),
        ),
    }
}

fn resolve_spans(
    index: usize,
    text: &Option<String>,
    spans: &Option<Vec<RawSpan>>,
    palette: &Palette,
    errors: &mut Vec<Diagnostic>,
) -> (runs: Vec<TextRun>)
    ensures
        runs_view(runs@) == spans_spec(index as nat, *text, *spans, *palette).0,
        diags_view(final(errors)@) == diags_view(old(errors)@) + spans_spec(
            index as nat,
            *text,
            *spans,
            *palette,
        ).1,
{
    let ghost e0 = diags_view(errors@);
    match spans {
        Some(v) => {
            let mut runs: Vec<TextRun> = Vec::new();
            let mut i: usize = 0;
            proof {
                assert(v@.take(0) =~= Seq::<RawSpan>::empty());
                assert(e0 + Seq::<DiagView>::empty() =~= e0);
            }
            while i < v.len()
                invariant
                    i <= v@.len(),
                    runs@.len() == i,
                    forall|k: int| 0 <= k < i ==> #[trigger] runs_view(runs@)[k] == span_run(v@[k], *palette),
                    diags_view(errors@) == e0 + span_errors(index as nat, v@.take(i as int), *palette),
                decreases v@.len() - i,
            {
                let span = &v[i];
                proof {
                    assert(v@.take(i + 1).drop_last() =~= v@.take(i as int));
                    assert(v@.take(i + 1).last() == v@[i as int]);
                }
                let color = match &span.color {
                    Some(name) => {
                        let c = palette_color(name.as_str(), palette);
                        match c {
                            Some(_) => {},
                            None => {
                                proof {
                                    reveal_strlit("unknown color `");
                                    reveal_strlit("`");
                                    reveal_strlit("spans[");
                                    reveal_strlit("].color");
                                }
                                let mut msg = String::from_str("unknown color `");
                                msg.append(name.as_str());
                                msg.append("`");
                                let mut field = String::from_str("spans[");
                                append_decimal(&mut field, i as u64);
                                field.append("].color");
                                let path = step_path_string(index, field.as_str());
                                let d = Diagnostic::error(codes::BAD_COLOR, msg.as_str()).at_path(
                                    path.as_str(),
                                ).with_hint(
                                    "Use a palette name (foreground, warning, error, success, muted, command, cursor) or a hex value like `#39FF14`.",
                                );
                                push_diag(errors, d);
                            },
                        }
                        c
                    },
                    None => None,
                };
                let ghost r0 = runs@;
                runs.push(TextRun { text: span.text.clone(), color });
                proof {
                    assert forall|k: int| 0 <= k < i + 1 implies #[trigger] runs_view(runs@)[k]
                        == span_run(v@[k], *palette) by {
                        if k < i {
                            assert(runs@[k] == r0[k]);
                            assert(runs_view(r0)[k] == span_run(v@[k], *palette));
                            assert(runs_view(runs@)[k] == runs_view(r0)[k]);
                        } else {
                            assert(runs@[k].color == span_run(v@[k], *palette).1);
                            assert(runs@[k].text@ == span_run(v@[k], *palette).0);
                        }
                    }
                }
                i = i + 1;
            }
            proof {
                assert(v@.take(i as int) =~= v@);
                assert(runs_view(runs@) =~= spans_spec(index as nat, *text, *spans, *palette).0);
            }
            runs
        },
        None => {
            let t = match text {
                Some(t) => t.clone(),
                None => String::new(),
            };
            let mut runs: Vec<TextRun> = Vec::new();
            runs.push(TextRun { text: t, color: None });
            proof {
                assert(runs_view(runs@) =~= spans_spec(index as nat, *text, *spans, *palette).0);
                assert(diags_view(errors@) =~= e0 + Seq::<DiagView>::empty());
            }
            runs
        },
    }
}

/// An optional speed: the default when absent, else the duration at
/// `timeline[index].speed`.
pub open spec fn speed_spec(index: nat, value: Option<RawDuration>, default: u64) -> (u64, Seq<DiagView>) {
    match value {
        None => (default, Seq::empty()),
        Some(t) => duration_or_zero_spec(t, step_path(index, "speed"@)),
    }
}

/// An optional color: resolved against the palette, or an error at
/// `timeline[index].field` when it names nothing.
pub open spec fn color_field_spec(index: nat, value: Option<String>, field: Seq<char>, p: Palette) -> (Option<Color>, Seq<DiagView>) {
    match value {
        None => (None, Seq::empty()),
        Some(name) => match palette_color_spec(name@, p) {
            Some(c) => (Some(c), Seq::empty()),
            None => (
                None,
                seq![diag_at(codes::BAD_COLOR, "unknown color `"@ + name@ + "`"@, step_path(index, field))],
            ),
        },
    }
}

/// An optional count: at least 1, with an error at `timeline[index].count` when
/// it is written as zero.
pub open spec fn count_spec(index: nat, value: Option<u32>, what: Seq<char>) -> (u32, Seq<DiagView>) {
    let c = match value {
        Some(c) => c,
        None => 1,
    };
    if c == 0 {
        (
            1,
            seq![diag_at(codes::DURATION_NOT_POSITIVE, what + " count must be at least 1"@, step_path(index, "count"@))],
        )
    } else {
        (c, Seq::empty())
    }
}

/// Default per-grapheme typing speed for `write` and `write_line`: 35 ms.
pub open spec fn default_write_speed() -> u64 {
    35_000_000
}

/// Default per-grapheme typing speed for `command`: 45 ms.
pub open spec fn default_command_speed() -> u64 {
    45_000_000
}

/// Default per-character speed for `backspace`: 40 ms.
pub open spec fn default_backspace_speed() -> u64 {
    40_000_000
}

/// Default pause between a command finishing and its Enter keypress: 250 ms.
pub open spec fn default_enter_delay() -> u64 {
    250_000_000
}

/// The action a raw action at position `index` resolves to, and the errors found
/// on the way, in order.
pub open spec fn resolve_action_spec(index: nat, a: RawAction, p: Palette) -> (ActionView, Seq<DiagView>) {
    match a {
        RawAction::Write { text, spans, speed } => {
            let (runs, e1) = spans_spec(index, text, spans, p);
            let (sp, e2) = speed_spec(index, speed, default_write_speed());
            (ActionView::Write { spans: runs, speed: sp }, e1 + e2)
        },
        RawAction::WriteLine { text, spans, speed } => {
            let (runs, e1) = spans_spec(index, text, spans, p);
            let (sp, e2) = speed_spec(index, speed, default_write_speed());
            (ActionView::WriteLine { spans: runs, speed: sp }, e1 + e2)
        },
        RawAction::Command { text, speed, enter_delay } => {
            let (sp, e1) = speed_spec(index, speed, default_command_speed());
            let (ed, e2) = match enter_delay {
                None => (default_enter_delay(), Seq::empty()),
                Some(v) => duration_or_zero_spec(v, step_path(index, "enter_delay"@)),
            };
            (ActionView::Command { text: text@, speed: sp, enter_delay: ed }, e1 + e2)
        },
        RawAction::Pause { duration } => {
            let (d, e) = positive_duration_spec(duration, step_path(index, "duration"@));
            (ActionView::Pause { duration: d }, e)
        },
        RawAction::PauseRandom { min, max, .. } => {
            let (lo, e1) = positive_duration_spec(min, step_path(index, "min"@));
            let (hi, e2) = positive_duration_spec(max, step_path(index, "max"@));
            let e3: Seq<DiagView> = if hi < lo {
                seq![diag_at(
                    codes::DURATION_NOT_POSITIVE,
                    "pause_random max must be greater than or equal to min"@,
                    step_path(index, "max"@),
                )]
            } else {
                Seq::empty()
            };
            (ActionView::PauseRandom { min: lo, max: hi }, e1 + e2 + e3)
        },
        RawAction::Newline { count } => {
            let (c, e) = count_spec(index, count, "newline"@);
            (ActionView::Newline { count: c }, e)
        },
        RawAction::Clear { effect } => match effect {
            None => (ActionView::Clear { effect: ClearEffect::Instant }, Seq::empty()),
            Some(name) => if name@ == "instant"@ {
                (ActionView::Clear { effect: ClearEffect::Instant }, Seq::empty())
            } else if name@ == "terminal"@ {
                (ActionView::Clear { effect: ClearEffect::Terminal }, Seq::empty())
            } else {
                (
                    ActionView::Clear { effect: ClearEffect::Instant },
                    seq![diag_at(
                        codes::UNKNOWN_FIELD,
                        "unknown clear effect `"@ + name@ + "` (expected instant or terminal)"@,
                        step_path(index, "effect"@),
                    )],
                )
            },
        },
        RawAction::Backspace { count, speed } => {
            let (c, e1) = count_spec(index, count, "backspace"@);
            let (sp, e2) = speed_spec(index, speed, default_backspace_speed());
            (ActionView::Backspace { count: c, speed: sp }, e1 + e2)
        },
        RawAction::Cursor { visible, blink, duration, .. } => {
            let (b, e1) = match blink {
                None => (None, Seq::empty()),
                Some(t) => {
                    let (v, e) = duration_or_zero_spec(t, step_path(index, "blink"@));
                    (Some(v), e)
                },
            };
            let (d, e2) = match duration {
                None => (0, Seq::empty()),
                Some(t) => positive_duration_spec(t, step_path(index, "duration"@)),
            };
            (
                ActionView::Cursor {
                    visible: match visible {
                        Some(v) => v,
                        None => true,
                    },
                    blink: b,
                    duration: d,
                },
                e1 + e2,
            )
        },
        RawAction::SetColor { foreground, background } => {
            let (f, e1) = color_field_spec(index, foreground, "foreground"@, p);
            let (b, e2) = color_field_spec(index, background, "background"@, p);
            (ActionView::SetColor { foreground: f, background: b }, e1 + e2)
        },
        RawAction::ResetStyle => (ActionView::ResetStyle, Seq::empty()),
    }
}

fn speed_of(index: usize, value: &Option<RawDuration>, default: Time, errors: &mut Vec<Diagnostic>) -> (t: Time)
    ensures
        t.0 == speed_spec(index as nat, *value, default.0).0,
        diags_view(final(errors)@) == diags_view(old(errors)@) + speed_spec(
            index as nat,
            *value,
            default.0,
        ).1,
{
    match value {
        None => {
            proof {
                assert(diags_view(errors@) + Seq::<DiagView>::empty() =~= diags_view(errors@));
            }
            default
        },
        Some(text) => {
            proof {
                reveal_strlit("speed");
            }
            let path = step_path_string(index, "speed");
            duration_or_zero(text, path.as_str(), errors)
        },
    }
}

fn color_field(
    index: usize,
    value: &Option<String>,
    field: &str,
    palette: &Palette,
    errors: &mut Vec<Diagnostic>,
) -> (c: Option<Color>)
    ensures
        c == color_field_spec(index as nat, *value, field@, *palette).0,
        diags_view(final(errors)@) == diags_view(old(errors)@) + color_field_spec(
            index as nat,
            *value,
            field@,
            *palette,
        ).1,
{
    let ghost e0 = diags_view(errors@);
    match value {
        None => {
            proof {
                assert(e0 + Seq::<DiagView>::empty() =~= e0);
            }
            None
        },
        Some(name) => match palette_color(name.as_str(), palette) {
            Some(c) => {
                proof {
                    assert(e0 + Seq::<DiagView>::empty() =~= e0);
                }
                Some(c)
            },
            None => {
                proof {
                    reveal_strlit("unknown color `");
                    reveal_strlit("`");
                }
                let mut msg = String::from_str("unknown color `");
                msg.append(name.as_str());
                msg.append("`");
                let path = step_path_string(index, field);
                push_diag(errors, Diagnostic::error(codes::BAD_COLOR, msg.as_str()).at_path(path.as_str()));
                proof {
                    assert(diags_view(errors@) =~= e0 + color_field_spec(
                        index as nat,
                        *value,
                        field@,
                        *palette,
                    ).1);
                }
                None
            },
        },
    }
}

fn count_of(index: usize, value: Option<u32>, what: &str, errors: &mut Vec<Diagnostic>) -> (c: u32)
    ensures
        c == count_spec(index as nat, value, what@).0,
        diags_view(final(errors)@) == diags_view(old(errors)@) + count_spec(index as nat, value, what@).1,
{
    let ghost e0 = diags_view(errors@);
    let c = match value {
        Some(c) => c,
        None => 1,
    };
    if c == 0 {
        proof {
            reveal_strlit(" count must be at least 1");
            reveal_strlit("count");
        }
        let mut msg = String::from_str(what);
        msg.append(" count must be at least 1");
        let path = step_path_string(index, "count");
        push_diag(
            errors,
            Diagnostic::error(codes::DURATION_NOT_POSITIVE, msg.as_str()).at_path(path.as_str()),
        );
        proof {
            assert(diags_view(errors@) =~= e0 + count_spec(index as nat, value, what@).1);
        }
        1
    } else {
        proof {
            assert(e0 + Seq::<DiagView>::empty() =~= e0);
        }
        c
    }
}

fn resolve_action(index: usize, action: &RawAction, palette: &Palette, errors: &mut Vec<Diagnostic>) -> (a: Action)
    ensures
        a@ == resolve_action_spec(index as nat, *action, *palette).0,
        diags_view(final(errors)@) == diags_view(old(errors)@) + resolve_action_spec(
            index as nat,
            *action,
            *palette,
        ).1,
{
    let ghost e0 = diags_view(errors@);
    let ghost r = resolve_action_spec(index as nat, *action, *palette);
    match action {
        RawAction::Write { text, spans, speed } => {
            let runs = resolve_spans(index, text, spans, palette, errors);
            let sp = speed_of(index, speed, Time::from_nanos(35_000_000), errors);
            proof {
                assert(diags_view(errors@) =~= e0 + r.1);
            }
            Action::Write { spans: runs, speed: sp }
        },
        RawAction::WriteLine { text, spans, speed } => {
            let runs = resolve_spans(index, text, spans, palette, errors);
            let sp = speed_of(index, speed, Time::from_nanos(35_000_000), errors);
            proof {
                assert(diags_view(errors@) =~= e0 + r.1);
            }
            Action::WriteLine { spans: runs, speed: sp }
        },
        RawAction::Command { text, speed, enter_delay } => {
            let sp = speed_of(index, speed, Time::from_nanos(45_000_000), errors);
            let ed = match enter_delay {
                None => Time::from_nanos(250_000_000),
                Some(value) => {
                    proof {
                        reveal_strlit("enter_delay");
                    }
                    let path = step_path_string(index, "enter_delay");
                    duration_or_zero(value, path.as_str(), errors)
                },
            };
            proof {
                assert(diags_view(errors@) =~= e0 + r.1);
            }
            Action::Command { text: text.clone(), speed: sp, enter_delay: ed }
        },
        RawAction::Pause { duration } => {
            proof {
                reveal_strlit("duration");
            }
            let path = step_path_string(index, "duration");
            let d = positive_duration(duration, path.as_str(), errors);
            Action::Pause { duration: d }
        },
        RawAction::PauseRandom { min, max, .. } => {
            proof {
                reveal_strlit("min");
                reveal_strlit("max");
                reveal_strlit("pause_random max must be greater than or equal to min");
            }
            let min_path = step_path_string(index, "min");
            let min_time = positive_duration(min, min_path.as_str(), errors);
            let max_path = step_path_string(index, "max");
            let max_time = positive_duration(max, max_path.as_str(), errors);
            let ghost e2 = diags_view(errors@);
            if max_time.0 < min_time.0 {
                push_diag(
                    errors,
                    Diagnostic::error(
                        codes::DURATION_NOT_POSITIVE,
                        "pause_random max must be greater than or equal to min",
                    ).at_path(max_path.as_str()),
                );
            }
            proof {
                assert(diags_view(errors@) =~= e0 + r.1);
            }
            Action::PauseRandom { min: min_time, max: max_time }
        },
        RawAction::Newline { count } => {
            proof {
                reveal_strlit("newline");
            }
            let c = count_of(index, *count, "newline", errors);
            Action::Newline { count: c }
        },
        RawAction::Clear { effect } => {
            let e = match effect {
                None => ClearEffect::Instant,
                Some(name) => {
                    if str_eq(name.as_str(), "instant") {
                        ClearEffect::Instant
                    } else if str_eq(name.as_str(), "terminal") {
                        ClearEffect::Terminal
                    } else {
                        proof {
                            reveal_strlit("unknown clear effect `");
                            reveal_strlit("` (expected instant or terminal)");
                            reveal_strlit("effect");
                        }
                        let mut msg = String::from_str("unknown clear effect `");
                        msg.append(name.as_str());
                        msg.append("` (expected instant or terminal)");
                        let path = step_path_string(index, "effect");
                        push_diag(
                            errors,
                            Diagnostic::error(codes::UNKNOWN_FIELD, msg.as_str()).at_path(
                                path.as_str(),
                            ),
                        );
                        ClearEffect::Instant
                    }
                },
            };
            proof {
                assert(diags_view(errors@) =~= e0 + r.1);
            }
            Action::Clear { effect: e }
        },
        RawAction::Backspace { count, speed } => {
            proof {
                reveal_strlit("backspace");
            }
            let c = count_of(index, *count, "backspace", errors);
            let sp = speed_of(index, speed, Time::from_nanos(40_000_000), errors);
            proof {
                assert(diags_view(errors@) =~= e0 + r.1);
            }
            Action::Backspace { count: c, speed: sp }
        },
        RawAction::Cursor { visible, blink, duration, .. } => {
            let b = match blink {
                None => None,
                Some(text) => {
                    proof {
                        reveal_strlit("blink");
                    }
                    let path = step_path_string(index, "blink");
                    Some(duration_or_zero(text, path.as_str(), errors))
                },
            };
            let ghost e1 = diags_view(errors@);
            let d = match duration {
                None => Time::zero(),
                Some(text) => {
                    proof {
                        reveal_strlit("duration");
                    }
                    let path = step_path_string(index, "duration");
                    positive_duration(text, path.as_str(), errors)
                },
            };
            proof {
                assert(diags_view(errors@) =~= e0 + r.1);
            }
            let v = match visible {
                Some(v) => *v,
                None => true,
            };
            Action::Cursor { visible: v, blink: b, duration: d }
        },
        RawAction::SetColor { foreground, background } => {
            proof {
                reveal_strlit("foreground");
                reveal_strlit("background");
            }
            let f = color_field(index, foreground, "foreground", palette, errors);
            let b = color_field(index, background, "background", palette, errors);
            proof {
                assert(diags_view(errors@) =~= e0 + r.1);
            }
            Action::SetColor { foreground: f, background: b }
        },
        RawAction::ResetStyle => {
            proof {
                assert(diags_view(errors@) =~= e0 + r.1);
            }
            Action::ResetStyle
        },
    }
}

/// Every field the CLI can override (the highest-priority layer).
#[derive(Debug, Clone, Default, PartialEq, Eq)]
pub struct Overrides {
    pub width: Option<u32>,
    pub height: Option<u32>,
    pub fps: Option<u32>,
    pub theme: Option<String>,
    pub background: Option<String>,
    pub transparent: Option<bool>,
    pub looping: Option<bool>,
    pub quality: Option<u8>,
    pub format: Option<String>,
    pub output: Option<String>,
    pub overwrite: bool,
}

/// Everything resolution reads besides the raw scenario.
#[derive(Debug, Clone, Default)]
pub struct ResolveContext {
    pub overrides: Overrides,
    pub project: Option<ProjectConfig>,
    pub project_root: Option<String>,
    /// Directory of the scenario file, used to resolve relative font paths.
    pub scenario_dir: Option<String>,
    /// The project theme file for the theme the scenario asks for, when the
    /// project's themes directory holds one (see `theme_file_path`).
    pub theme_file: Option<ThemeFile>,
}

#[derive(Debug, Clone, PartialEq, Eq)]
pub struct Loaded {
    pub scenario: Scenario,
    pub output: OutputConfig,
}

/// A resolved scenario and output as a value.
pub struct LoadedView {
    pub scenario: ScenarioView,
    pub output: OutputView,
}

impl View for Loaded {
    type V = LoadedView;

    open spec fn view(&self) -> LoadedView {
        LoadedView { scenario: self.scenario@, output: self.output@ }
    }
}

pub open spec fn or_u32(a: Option<u32>, b: Option<u32>) -> Option<u32> {
    match a {
        Some(x) => Some(x),
        None => b,
    }
}

pub open spec fn u32_or(a: Option<u32>, d: u32) -> u32 {
    match a {
        Some(x) => x,
        None => d,
    }
}

/// The project's defaults layer, if there is one.
pub open spec fn defaults_of(ctx: ResolveContext) -> Option<ProjectDefaults> {
    match ctx.project {
        Some(p) => p.defaults,
        None => None,
    }
}

/// The raw canvas section, or an empty one.
pub open spec fn raw_canvas(raw: RawScenario) -> RawCanvas {
    match raw.canvas {
        Some(c) => c,
        None => RawCanvas { width: None, height: None, fps: None, background: None, transparent: None },
    }
}

/// Canvas width: override, else scenario, else project default, else 1920.
pub open spec fn width_spec(raw: RawScenario, ctx: ResolveContext) -> u32 {
    let d = match defaults_of(ctx) {
        Some(d) => d.width,
        None => None,
    };
    u32_or(or_u32(ctx.overrides.width, or_u32(raw_canvas(raw).width, d)), 1920)
}

/// Canvas height: override, else scenario, else project default, else 1080.
pub open spec fn height_spec(raw: RawScenario, ctx: ResolveContext) -> u32 {
    let d = match defaults_of(ctx) {
        Some(d) => d.height,
        None => None,
    };
    u32_or(or_u32(ctx.overrides.height, or_u32(raw_canvas(raw).height, d)), 1080)
}

/// Frame rate: override, else scenario, else project default, else 30.
pub open spec fn fps_value_spec(raw: RawScenario, ctx: ResolveContext) -> u32 {
    let d = match defaults_of(ctx) {
        Some(d) => d.fps,
        None => None,
    };
    u32_or(or_u32(ctx.overrides.fps, or_u32(raw_canvas(raw).fps, d)), 30)
}

pub open spec fn dimension_hint() -> Seq<char> {
    decimal(MAX_CANVAS_DIMENSION as nat) + " pixels comfortably exceeds 8K (7680x4320); use a smaller canvas."@
}

/// The canvas checks: nonzero dimensions, dimensions within the limit, nonzero
/// frame rate.
pub open spec fn canvas_errors(w: u32, h: u32, fps: u32) -> Seq<DiagView> {
    let e1: Seq<DiagView> = if w == 0 || h == 0 {
        seq![diag_at(codes::BAD_DIMENSION, "canvas width and height must be greater than 0"@, "canvas.width"@)]
    } else {
        Seq::empty()
    };
    let e2: Seq<DiagView> = if w > MAX_CANVAS_DIMENSION || h > MAX_CANVAS_DIMENSION {
        seq![hinted(
            diag_at(
                codes::BAD_DIMENSION,
                "canvas width and height must not exceed "@ + decimal(MAX_CANVAS_DIMENSION as nat)
                    + " pixels each (got "@ + decimal(w as nat) + "x"@ + decimal(h as nat) + ")"@,
                "canvas.width"@,
            ),
            dimension_hint(),
        )]
    } else {
        Seq::empty()
    };
    let e3: Seq<DiagView> = if fps == 0 {
        seq![diag_at(codes::BAD_DIMENSION, "canvas fps must be greater than 0"@, "canvas.fps"@)]
    } else {
        Seq::empty()
    };
    e1 + e2 + e3
}

fn check_canvas(w: u32, h: u32, fps: u32, errors: &mut Vec<Diagnostic>)
    ensures
        diags_view(final(errors)@) == diags_view(old(errors)@) + canvas_errors(w, h, fps),
{
    proof {
        reveal_strlit("canvas width and height must be greater than 0");
        reveal_strlit("canvas.width");
        reveal_strlit("canvas width and height must not exceed ");
        reveal_strlit(" pixels each (got ");
        reveal_strlit("x");
        reveal_strlit(")");
        reveal_strlit(" pixels comfortably exceeds 8K (7680x4320); use a smaller canvas.");
        reveal_strlit("canvas fps must be greater than 0");
        reveal_strlit("canvas.fps");
    }
    let ghost e0 = diags_view(errors@);
    if w == 0 || h == 0 {
        push_diag(
            errors,
            Diagnostic::error(codes::BAD_DIMENSION, "canvas width and height must be greater than 0").at_path(
                "canvas.width",
            ),
        );
    }
    let ghost e1 = diags_view(errors@);
    if w > MAX_CANVAS_DIMENSION || h > MAX_CANVAS_DIMENSION {
        let mut msg = String::from_str("canvas width and height must not exceed ");
        append_decimal(&mut msg, MAX_CANVAS_DIMENSION as u64);
        msg.append(" pixels each (got ");
        append_decimal(&mut msg, w as u64);
        msg.append("x");
        append_decimal(&mut msg, h as u64);
        msg.append(")");
        let mut hint = String::new();
        append_decimal(&mut hint, MAX_CANVAS_DIMENSION as u64);
        hint.append(" pixels comfortably exceeds 8K (7680x4320); use a smaller canvas.");
        proof {
            assert(hint@ =~= dimension_hint());
        }
        push_diag(
            errors,
            Diagnostic::error(codes::BAD_DIMENSION, msg.as_str()).at_path("canvas.width").with_hint(
                hint.as_str(),
            ),
        );
    }
    let ghost e2 = diags_view(errors@);
    if fps == 0 {
        push_diag(
            errors,
            Diagnostic::error(codes::BAD_DIMENSION, "canvas fps must be greater than 0").at_path(
                "canvas.fps",
            ),
        );
    }
    proof {
        assert(diags_view(errors@) =~= e0 + canvas_errors(w, h, fps));
    }
}

/// The theme asked for: override, else the scenario's `theme:`, else the
/// project default.
pub open spec fn theme_name_spec(raw: RawScenario, ctx: ResolveContext) -> Option<Seq<char>> {
    match ctx.overrides.theme {
        Some(t) => Some(t@),
        None => match raw.theme {
            Some(RawThemeRef::Named(n)) => Some(n@),
            Some(RawThemeRef::Ref { reference }) => Some(reference@),
            None => match defaults_of(ctx) {
                Some(d) => opt_view(d.theme),
                None => None,
            },
        },
    }
}

/// Where a project keeps the theme file for `name`: `<themes dir>/<name>.yaml`,
/// when there is a project with a known root.
pub open spec fn theme_candidate(ctx: ResolveContext, name: Seq<char>) -> Option<Seq<char>> {
    match (ctx.project, ctx.project_root) {
        (Some(p), Some(root)) => Some(joined(joined(root@, themes_rel(p)), name + ".yaml"@)),
        _ => None,
    }
}

/// The project theme file the context supplies for `name`, if it is the one at
/// the expected place.
pub open spec fn theme_file_for(ctx: ResolveContext, name: Seq<char>) -> Option<ThemeFile> {
    match (theme_candidate(ctx, name), ctx.theme_file) {
        (Some(c), Some(f)) => if f.path@ == c {
            Some(f)
        } else {
            None
        },
        _ => None,
    }
}

/// The palette: the named theme's, or the default one (with the theme's error at
/// `theme` when it cannot be had).
pub open spec fn palette_spec(raw: RawScenario, ctx: ResolveContext) -> (Palette, Seq<DiagView>) {
    match theme_name_spec(raw, ctx) {
        None => (default_palette(), Seq::empty()),
        Some(n) => match load_theme_spec(n, theme_file_for(ctx, n)) {
            Ok(p) => (p, Seq::empty()),
            Err(d) => (default_palette(), seq![DiagView { path: Some("theme"@), ..d }]),
        },
    }
}

fn theme_name(raw: &RawScenario, ctx: &ResolveContext) -> (n: Option<String>)
    ensures
        opt_view(n) == theme_name_spec(*raw, *ctx),
{
    match &ctx.overrides.theme {
        Some(t) => Some(t.clone()),
        None => match &raw.theme {
            Some(RawThemeRef::Named(n)) => Some(n.clone()),
            Some(RawThemeRef::Ref { reference }) => Some(reference.clone()),
            None => match &ctx.project {
                Some(p) => match &p.defaults {
                    Some(d) => match &d.theme {
                        Some(t) => Some(t.clone()),
                        None => None,
                    },
                    None => None,
                },
                None => None,
            },
        },
    }
}

fn theme_candidate_path(ctx: &ResolveContext, name: &str) -> (c: Option<String>)
    ensures
        opt_view(c) == theme_candidate(*ctx, name@),
{
    match (&ctx.project, &ctx.project_root) {
        (Some(p), Some(root)) => {
            proof {
                reveal_strlit(".yaml");
            }
            let dir = p.themes_dir(root.as_str());
            let mut file = String::from_str(name);
            file.append(".yaml");
            Some(join_path(dir.as_str(), file.as_str()))
        },
        _ => None,
    }
}

/// The project theme file a caller should look for (and, when it is a file, read
/// into `ResolveContext::theme_file`) before resolving `raw`: the chosen theme's
/// file in the project's themes directory, if a theme is chosen and a project
/// with a root is known.
pub fn theme_file_path(raw: &RawScenario, ctx: &ResolveContext) -> (c: Option<String>)
    ensures
        opt_view(c) == match theme_name_spec(*raw, *ctx) {
            Some(n) => theme_candidate(*ctx, n),
            None => None,
        },
{
    match theme_name(raw, ctx) {
        Some(n) => theme_candidate_path(ctx, n.as_str()),
        None => None,
    }
}

fn resolve_palette(raw: &RawScenario, ctx: &ResolveContext, errors: &mut Vec<Diagnostic>) -> (p: Palette)
    ensures
        p == palette_spec(*raw, *ctx).0,
        diags_view(final(errors)@) == diags_view(old(errors)@) + palette_spec(*raw, *ctx).1,
{
    let ghost e0 = diags_view(errors@);
    match theme_name(raw, ctx) {
        None => {
            proof {
                assert(e0 + Seq::<DiagView>::empty() =~= e0);
            }
            Palette::default()
        },
        Some(name) => {
            let candidate = theme_candidate_path(ctx, name.as_str());
            let file: Option<&ThemeFile> = match (candidate, &ctx.theme_file) {
                (Some(c), Some(f)) => if str_eq(f.path.as_str(), c.as_str()) {
                    Some(f)
                } else {
                    None
                },
                _ => None,
            };
            match load_theme(name.as_str(), file) {
                Ok(p) => {
                    proof {
                        assert(e0 + Seq::<DiagView>::empty() =~= e0);
                    }
                    p
                },
                Err(d) => {
                    proof {
                        reveal_strlit("theme");
                    }
                    push_diag(errors, d.at_path("theme"));
                    proof {
                        assert(diags_view(errors@) =~= e0 + palette_spec(*raw, *ctx).1);
                    }
                    Palette::default()
                },
            }
        },
    }
}

/// The background: override, else the scenario's, as a palette color name or a
/// hex color; the palette's background when neither is given, or when the text
/// is neither (then with the color error).
pub open spec fn background_spec(raw: RawScenario, ctx: ResolveContext, p: Palette) -> (Color, Seq<DiagView>) {
    let source = match ctx.overrides.background {
        Some(b) => Some(b),
        None => raw_canvas(raw).background,
    };
    match source {
        None => (p.background, Seq::empty()),
        Some(t) => match palette_color_spec(t@, p) {
            Some(c) => (c, Seq::empty()),
            None => match spec_parse_color(t@) {
                Ok(c) => (c, Seq::empty()),
                Err(f) => (
                    p.background,
                    seq![diag_at(codes::BAD_COLOR, color_error_message(f, trimmed(t@)), "canvas.background"@)],
                ),
            },
        },
    }
}

fn resolve_background(raw: &RawScenario, ctx: &ResolveContext, palette: &Palette, errors: &mut Vec<Diagnostic>) -> (c: Color)
    ensures
        c == background_spec(*raw, *ctx, *palette).0,
        diags_view(final(errors)@) == diags_view(old(errors)@) + background_spec(*raw, *ctx, *palette).1,
{
    let ghost e0 = diags_view(errors@);
    let source: Option<&String> = match &ctx.overrides.background {
        Some(b) => Some(b),
        None => match &raw.canvas {
            Some(c) => match &c.background {
                Some(b) => Some(b),
                None => None,
            },
            None => None,
        },
    };
    match source {
        None => {
            proof {
                assert(e0 + Seq::<DiagView>::empty() =~= e0);
            }
            palette.background
        },
        Some(text) => match palette_color(text.as_str(), palette) {
            Some(c) => {
                proof {
                    assert(e0 + Seq::<DiagView>::empty() =~= e0);
                }
                c
            },
            None => match parse_color(text.as_str()) {
                Ok(c) => {
                    proof {
                        assert(e0 + Seq::<DiagView>::empty() =~= e0);
                    }
                    c
                },
                Err(err) => {
                    proof {
                        reveal_strlit("canvas.background");
                    }
                    let m = err.message();
                    push_diag(errors, Diagnostic::error(codes::BAD_COLOR, m.as_str()).at_path("canvas.background"));
                    proof {
                        assert(diags_view(errors@) =~= e0 + background_spec(*raw, *ctx, *palette).1);
                    }
                    palette.background
                },
            },
        },
    }
}

/// The raw terminal section, or an empty one.
pub open spec fn raw_terminal(raw: RawScenario) -> RawTerminal {
    match raw.terminal {
        Some(t) => t,
        None => RawTerminal { x: None, y: None, width: None, height: None, padding: None, overflow: None },
    }
}

/// `n - 2 * margin`, at least 1.
pub open spec fn inner_extent(n: u32) -> u32 {
    if n > 2 * DEFAULT_TERMINAL_MARGIN + 1 {
        (n - 2 * DEFAULT_TERMINAL_MARGIN) as u32
    } else {
        1
    }
}

/// The terminal region: as written, else 110 px in from the canvas edges.
pub open spec fn bounds_spec(raw: RawScenario, w: u32, h: u32) -> Rect {
    let t = raw_terminal(raw);
    Rect {
        x: match t.x {
            Some(x) => x,
            None => 110,
        },
        y: match t.y {
            Some(y) => y,
            None => 110,
        },
        width: u32_or(t.width, inner_extent(w)),
        height: u32_or(t.height, inner_extent(h)),
    }
}

/// The error when the terminal region does not lie inside the canvas.
pub open spec fn bounds_errors(b: Rect, w: u32, h: u32) -> Seq<DiagView> {
    if b.x < 0 || b.y < 0 || b.x + b.width > w || b.y + b.height > h {
        seq![diag_at(
            codes::TERMINAL_OUT_OF_BOUNDS,
            "terminal region "@ + decimal(b.width as nat) + "x"@ + decimal(b.height as nat) + " at ("@
                + signed_decimal(b.x as int) + ","@ + signed_decimal(b.y as int)
                + ") does not fit inside the "@ + decimal(w as nat) + "x"@ + decimal(h as nat)
                + " canvas"@,
            "terminal"@,
        )]
    } else {
        Seq::empty()
    }
}

/// The terminal padding: each side as written (0 when absent), or none at all.
pub open spec fn padding_spec(raw: RawScenario) -> Padding {
    match raw_terminal(raw).padding {
        Some(p) => Padding {
            top: u32_or(p.top, 0),
            right: u32_or(p.right, 0),
            bottom: u32_or(p.bottom, 0),
            left: u32_or(p.left, 0),
        },
        None => Padding { top: 0, right: 0, bottom: 0, left: 0 },
    }
}

/// The overflow mode; scroll when absent or unknown (then with an error).
pub open spec fn overflow_spec(raw: RawScenario) -> (Overflow, Seq<DiagView>) {
    match raw_terminal(raw).overflow {
        None => (Overflow::Scroll, Seq::empty()),
        Some(o) => if o@ == "scroll"@ {
            (Overflow::Scroll, Seq::empty())
        } else if o@ == "clip"@ {
            (Overflow::Clip, Seq::empty())
        } else if o@ == "error"@ {
            (Overflow::Error, Seq::empty())
        } else {
            (
                Overflow::Scroll,
                seq![diag_at(
                    codes::UNKNOWN_FIELD,
                    "unknown overflow mode `"@ + o@ + "` (expected clip, scroll, or error)"@,
                    "terminal.overflow"@,
                )],
            )
        },
    }
}

fn inner(n: u32) -> (r: u32)
    ensures
        r == inner_extent(n),
{
    if n > 2 * DEFAULT_TERMINAL_MARGIN + 1 {
        n - 2 * DEFAULT_TERMINAL_MARGIN
    } else {
        1
    }
}

fn resolve_bounds(raw: &RawScenario, w: u32, h: u32, errors: &mut Vec<Diagnostic>) -> (b: Rect)
    ensures
        b == bounds_spec(*raw, w, h),
        diags_view(final(errors)@) == diags_view(old(errors)@) + bounds_errors(b, w, h),
{
    let ghost e0 = diags_view(errors@);
    let (x, y, bw, bh) = match &raw.terminal {
        Some(t) => (
            match t.x {
                Some(x) => x,
                None => 110,
            },
            match t.y {
                Some(y) => y,
                None => 110,
            },
            match t.width {
                Some(v) => v,
                None => inner(w),
            },
            match t.height {
                Some(v) => v,
                None => inner(h),
            },
        ),
        None => (110, 110, inner(w), inner(h)),
    };
    let b = Rect { x, y, width: bw, height: bh };
    if x < 0 || y < 0 || x as i64 + bw as i64 > w as i64 || y as i64 + bh as i64 > h as i64 {
        proof {
            reveal_strlit("terminal region ");
            reveal_strlit("x");
            reveal_strlit(" at (");
            reveal_strlit(",");
            reveal_strlit(") does not fit inside the ");
            reveal_strlit(" canvas");
            reveal_strlit("terminal");
        }
        let mut msg = String::from_str("terminal region ");
        append_decimal(&mut msg, bw as u64);
        msg.append("x");
        append_decimal(&mut msg, bh as u64);
        msg.append(" at (");
        append_signed(&mut msg, x);
        msg.append(",");
        append_signed(&mut msg, y);
        msg.append(") does not fit inside the ");
        append_decimal(&mut msg, w as u64);
        msg.append("x");
        append_decimal(&mut msg, h as u64);
        msg.append(" canvas");
        push_diag(errors, Diagnostic::error(codes::TERMINAL_OUT_OF_BOUNDS, msg.as_str()).at_path("terminal"));
        proof {
            assert(diags_view(errors@) =~= e0 + bounds_errors(b, w, h));
        }
    } else {
        proof {
            assert(e0 + Seq::<DiagView>::empty() =~= e0);
        }
    }
    b
}

fn resolve_padding(raw: &RawScenario) -> (p: Padding)
    ensures
        p == padding_spec(*raw),
{
    match &raw.terminal {
        Some(t) => match t.padding {
            Some(p) => Padding {
                top: match p.top {
                    Some(v) => v,
                    None => 0,
                },
                right: match p.right {
                    Some(v) => v,
                    None => 0,
                },
                bottom: match p.bottom {
                    Some(v) => v,
                    None => 0,
                },
                left: match p.left {
                    Some(v) => v,
                    None => 0,
                },
            },
            None => Padding::uniform(0),
        },
        None => Padding::uniform(0),
    }
}

fn resolve_overflow(raw: &RawScenario, errors: &mut Vec<Diagnostic>) -> (o: Overflow)
    ensures
        o == overflow_spec(*raw).0,
        diags_view(final(errors)@) == diags_view(old(errors)@) + overflow_spec(*raw).1,
{
    let ghost e0 = diags_view(errors@);
    let none: Option<String> = None;
    let mode = match &raw.terminal {
        Some(t) => &t.overflow,
        None => &none,
    };
    let o = match mode {
        None => Overflow::Scroll,
        Some(o) => if str_eq(o.as_str(), "scroll") {
            Overflow::Scroll
        } else if str_eq(o.as_str(), "clip") {
            Overflow::Clip
        } else if str_eq(o.as_str(), "error") {
            Overflow::Error
        } else {
            proof {
                reveal_strlit("unknown overflow mode `");
                reveal_strlit("` (expected clip, scroll, or error)");
                reveal_strlit("terminal.overflow");
            }
            let mut msg = String::from_str("unknown overflow mode `");
            msg.append(o.as_str());
            msg.append("` (expected clip, scroll, or error)");
            push_diag(errors, Diagnostic::error(codes::UNKNOWN_FIELD, msg.as_str()).at_path("terminal.overflow"));
            Overflow::Scroll
        },
    };
    proof {
        assert(diags_view(errors@) =~= e0 + overflow_spec(*raw).1);
    }
    o
}

pub open spec fn raw_font(raw: RawScenario) -> RawFont {
    match raw.font {
        Some(f) => f,
        None => RawFont {
            family: None,
            path: None,
            size_bits: None,
            weight: None,
            line_height_bits: None,
            letter_spacing_bits: None,
        },
    }
}

pub open spec fn text_or(t: Option<String>, d: Seq<char>) -> Seq<char> {
    match t {
        Some(t) => t@,
        None => d,
    }
}

/// The font: each setting as written, else its default; an explicit font path is
/// taken relative to the scenario's directory when that is known.
pub open spec fn font_spec(raw: RawScenario, ctx: ResolveContext) -> FontView {
    let f = raw_font(raw);
    FontView {
        family: text_or(f.family, "JetBrains Mono"@),
        path: match f.path {
            Some(p) => match ctx.scenario_dir {
                Some(d) => Some(joined(d@, p@)),
                None => Some(p@),
            },
            None => None,
        },
        size_bits: u32_or(f.size_bits, DEFAULT_FONT_SIZE_BITS),
        weight: match f.weight {
            Some(w) => w,
            None => DEFAULT_FONT_WEIGHT,
        },
        line_height_bits: u32_or(f.line_height_bits, DEFAULT_LINE_HEIGHT_BITS),
        letter_spacing_bits: u32_or(f.letter_spacing_bits, 0),
    }
}

/// A font size that is not positive is an error.
pub open spec fn font_errors(f: FontView) -> Seq<DiagView> {
    if f32_bits_not_positive(f.size_bits) {
        seq![diag_at(codes::BAD_DIMENSION, "font size must be greater than 0"@, "font.size"@)]
    } else {
        Seq::empty()
    }
}

fn string_or(t: &Option<String>, d: &str) -> (s: String)
    ensures
        s@ == text_or(*t, d@),
{
    match t {
        Some(t) => t.clone(),
        None => String::from_str(d),
    }
}

fn resolve_font(raw: &RawScenario, ctx: &ResolveContext, errors: &mut Vec<Diagnostic>) -> (f: FontConfig)
    ensures
        f@ == font_spec(*raw, *ctx),
        diags_view(final(errors)@) == diags_view(old(errors)@) + font_errors(f@),
{
    let ghost e0 = diags_view(errors@);
    let none: Option<String> = None;
    let font = match &raw.font {
        Some(rf) => {
            let path = match &rf.path {
                Some(p) => match &ctx.scenario_dir {
                    Some(d) => Some(join_path(d.as_str(), p.as_str())),
                    None => Some(p.clone()),
                },
                None => None,
            };
            FontConfig {
                family: string_or(&rf.family, "JetBrains Mono"),
                path,
                size_bits: match rf.size_bits {
                    Some(v) => v,
                    None => DEFAULT_FONT_SIZE_BITS,
                },
                weight: match rf.weight {
                    Some(v) => v,
                    None => DEFAULT_FONT_WEIGHT,
                },
                line_height_bits: match rf.line_height_bits {
                    Some(v) => v,
                    None => DEFAULT_LINE_HEIGHT_BITS,
                },
                letter_spacing_bits: match rf.letter_spacing_bits {
                    Some(v) => v,
                    None => 0,
                },
            }
        },
        None => FontConfig::default(),
    };
    if f32_bits_le_zero(font.size_bits) {
        proof {
            reveal_strlit("font size must be greater than 0");
            reveal_strlit("font.size");
        }
        push_diag(
            errors,
            Diagnostic::error(codes::BAD_DIMENSION, "font size must be greater than 0").at_path("font.size"),
        );
    }
    proof {
        assert(diags_view(errors@) =~= e0 + font_errors(font@));
    }
    font
}

/// The prompt texts: as written, else `user`, `localhost`, `~` and `$`.
pub open spec fn prompt_view_spec(raw: RawScenario) -> PromptView {
    match raw.prompt {
        Some(p) => PromptView {
            user: text_or(p.user, "user"@),
            host: text_or(p.host, "localhost"@),
            path: text_or(p.path, "~"@),
            symbol: text_or(p.symbol, "$"@),
        },
        None => PromptView { user: "user"@, host: "localhost"@, path: "~"@, symbol: "$"@ },
    }
}

fn resolve_prompt(raw: &RawScenario) -> (p: PromptConfig)
    ensures
        p@ == prompt_view_spec(*raw),
{
    match &raw.prompt {
        Some(p) => PromptConfig {
            user: string_or(&p.user, "user"),
            host: string_or(&p.host, "localhost"),
            path: string_or(&p.path, "~"),
            symbol: string_or(&p.symbol, "$"),
        },
        None => PromptConfig::default(),
    }
}

pub open spec fn raw_cursor(raw: RawScenario) -> RawCursor {
    match raw.cursor {
        Some(c) => c,
        None => RawCursor { style: None, blink: None, visible: None },
    }
}

/// The cursor style; block when absent or unknown (then with an error).
pub open spec fn cursor_style_spec(raw: RawScenario) -> (CursorStyle, Seq<DiagView>) {
    match raw_cursor(raw).style {
        None => (CursorStyle::Block, Seq::empty()),
        Some(s) => if s@ == "block"@ {
            (CursorStyle::Block, Seq::empty())
        } else if s@ == "underline"@ {
            (CursorStyle::Underline, Seq::empty())
        } else if s@ == "bar"@ {
            (CursorStyle::Bar, Seq::empty())
        } else {
            (
                CursorStyle::Block,
                seq![diag_at(
                    codes::UNKNOWN_FIELD,
                    "unknown cursor style `"@ + s@ + "` (expected block, underline, or bar)"@,
                    "cursor.style"@,
                )],
            )
        },
    }
}

/// The blink half-period: 500 ms when absent, none when zero, the default again
/// when the text is not a duration (then with an error).
pub open spec fn cursor_blink_spec(raw: RawScenario) -> (Option<Time>, Seq<DiagView>) {
    match raw_cursor(raw).blink {
        None => (Some(Time(500_000_000)), Seq::empty()),
        Some(t) => match t.reading {
            DurationReading::Read(n) => if n.0 == 0 {
                (None, Seq::empty())
            } else {
                (Some(n), Seq::empty())
            },
            DurationReading::Unreadable(f) => (
                Some(Time(500_000_000)),
                seq![diag_at(
                    codes::BAD_DURATION,
                    duration_error_message(f.fault(), f.text()),
                    "cursor.blink"@,
                )],
            ),
        },
    }
}

/// The cursor settings and their errors, style first.
pub open spec fn cursor_spec(raw: RawScenario) -> (CursorConfig, Seq<DiagView>) {
    let (style, e1) = cursor_style_spec(raw);
    let (blink, e2) = cursor_blink_spec(raw);
    (
        CursorConfig {
            style,
            blink,
            visible: match raw_cursor(raw).visible {
                Some(v) => v,
                None => true,
            },
        },
        e1 + e2,
    )
}

fn resolve_cursor(raw: &RawScenario, errors: &mut Vec<Diagnostic>) -> (c: CursorConfig)
    ensures
        c == cursor_spec(*raw).0,
        diags_view(final(errors)@) == diags_view(old(errors)@) + cursor_spec(*raw).1,
{
    let ghost e0 = diags_view(errors@);
    let none: Option<String> = None;
    let no_blink: Option<RawDuration> = None;
    let (style_text, blink_text, visible) = match &raw.cursor {
        Some(c) => (&c.style, &c.blink, c.visible),
        None => (&none, &no_blink, None),
    };
    let style = match style_text {
        None => CursorStyle::Block,
        Some(s) => if str_eq(s.as_str(), "block") {
            CursorStyle::Block
        } else if str_eq(s.as_str(), "underline") {
            CursorStyle::Underline
        } else if str_eq(s.as_str(), "bar") {
            CursorStyle::Bar
        } else {
            proof {
                reveal_strlit("unknown cursor style `");
                reveal_strlit("` (expected block, underline, or bar)");
                reveal_strlit("cursor.style");
            }
            let mut msg = String::from_str("unknown cursor style `");
            msg.append(s.as_str());
            msg.append("` (expected block, underline, or bar)");
            push_diag(errors, Diagnostic::error(codes::UNKNOWN_FIELD, msg.as_str()).at_path("cursor.style"));
            CursorStyle::Block
        },
    };
    let ghost e1 = diags_view(errors@);
    let blink = match blink_text {
        None => Some(default_cursor_blink()),
        Some(t) => match &t.reading {
            DurationReading::Read(d) => if d.0 == 0 {
                None
            } else {
                Some(*d)
            },
            DurationReading::Unreadable(err) => {
                proof {
                    reveal_strlit("cursor.blink");
                }
                let m = err.message();
                push_diag(errors, Diagnostic::error(codes::BAD_DURATION, m.as_str()).at_path("cursor.blink"));
                Some(default_cursor_blink())
            },
        },
    };
    proof {
        assert(diags_view(errors@) =~= e0 + cursor_spec(*raw).1);
    }
    CursorConfig {
        style,
        blink,
        visible: match visible {
            Some(v) => v,
            None => true,
        },
    }
}

/// Playback: looping from the override, else the scenario, else off; the loop
/// delay as written (zero when absent or malformed, then with an error).
pub open spec fn playback_spec(raw: RawScenario, ctx: ResolveContext) -> (PlaybackConfig, Seq<DiagView>) {
    let (looping, delay) = match raw.playback {
        Some(p) => (p.looping, p.loop_delay),
        None => (None, None),
    };
    let (d, e) = match delay {
        Some(t) => duration_or_zero_spec(t, "playback.loop_delay"@),
        None => (0, Seq::empty()),
    };
    (
        PlaybackConfig {
            looping: match ctx.overrides.looping {
                Some(l) => l,
                None => match looping {
                    Some(l) => l,
                    None => false,
                },
            },
            loop_delay: Time(d),
        },
        e,
    )
}

fn resolve_playback(raw: &RawScenario, ctx: &ResolveContext, errors: &mut Vec<Diagnostic>) -> (p: PlaybackConfig)
    ensures
        p == playback_spec(*raw, *ctx).0,
        diags_view(final(errors)@) == diags_view(old(errors)@) + playback_spec(*raw, *ctx).1,
{
    let ghost e0 = diags_view(errors@);
    let none: Option<RawDuration> = None;
    let (looping, delay) = match &raw.playback {
        Some(p) => (p.looping, &p.loop_delay),
        None => (None, &none),
    };
    let d = match delay {
        Some(t) => {
            proof {
                reveal_strlit("playback.loop_delay");
            }
            duration_or_zero(t, "playback.loop_delay", errors)
        },
        None => {
            proof {
                assert(e0 + Seq::<DiagView>::empty() =~= e0);
            }
            Time::zero()
        },
    };
    PlaybackConfig {
        looping: match ctx.overrides.looping {
            Some(l) => l,
            None => match looping {
                Some(l) => l,
                None => false,
            },
        },
        loop_delay: d,
    }
}

/// The resolved timeline and its errors, action by action.
pub open spec fn timeline_spec(actions: Seq<RawAction>, p: Palette) -> (Seq<ActionView>, Seq<DiagView>)
    decreases actions.len(),
{
    if actions.len() == 0 {
        (Seq::empty(), Seq::empty())
    } else {
        let (done, e1) = timeline_spec(actions.drop_last(), p);
        let (a, e2) = resolve_action_spec((actions.len() - 1) as nat, actions.last(), p);
        (done.push(a), e1 + e2)
    }
}

fn resolve_timeline(raw: &RawScenario, palette: &Palette, errors: &mut Vec<Diagnostic>) -> (t: Vec<Action>)
    ensures
        actions_view(t@) == timeline_spec(raw.timeline@, *palette).0,
        diags_view(final(errors)@) == diags_view(old(errors)@) + timeline_spec(
            raw.timeline@,
            *palette,
        ).1,
{
    let ghost e0 = diags_view(errors@);
    let ghost tl = raw.timeline@;
    let mut out: Vec<Action> = Vec::new();
    let mut i: usize = 0;
    proof {
        assert(tl.take(0) =~= Seq::<RawAction>::empty());
        assert(actions_view(out@) =~= Seq::<ActionView>::empty());
        assert(e0 + Seq::<DiagView>::empty() =~= e0);
    }
    while i < raw.timeline.len()
        invariant
            i <= tl.len(),
            tl == raw.timeline@,
            actions_view(out@) == timeline_spec(tl.take(i as int), *palette).0,
            diags_view(errors@) == e0 + timeline_spec(tl.take(i as int), *palette).1,
        decreases tl.len() - i,
    {
        proof {
            assert(tl.take(i + 1).drop_last() =~= tl.take(i as int));
            assert(tl.take(i + 1).last() == tl[i as int]);
        }
        let ghost ev = diags_view(errors@);
        let ghost ov = actions_view(out@);
        let a = resolve_action(i, &raw.timeline[i], palette, errors);
        out.push(a);
        proof {
            assert(actions_view(out@) =~= ov.push(a@));
            assert(diags_view(errors@) =~= e0 + timeline_spec(tl.take(i + 1), *palette).1);
        }
        i = i + 1;
    }
    proof {
        assert(tl.take(i as int) =~= tl);
    }
    out
}

pub open spec fn raw_output(raw: RawScenario) -> RawOutput {
    match raw.output {
        Some(o) => o,
        None => RawOutput { format: None, codec: None, quality: None, path: None },
    }
}

/// The output format: override, else scenario, as a name; WebM when absent or
/// unknown (then with an error).
pub open spec fn format_spec(raw: RawScenario, ctx: ResolveContext) -> (OutputFormat, Seq<DiagView>) {
    let name = match ctx.overrides.format {
        Some(f) => Some(f),
        None => raw_output(raw).format,
    };
    match name {
        None => (OutputFormat::WebM, Seq::empty()),
        Some(f) => if f@ == "webm"@ {
            (OutputFormat::WebM, Seq::empty())
        } else if f@ == "mp4"@ {
            (OutputFormat::Mp4, Seq::empty())
        } else if f@ == "gif"@ {
            (OutputFormat::Gif, Seq::empty())
        } else if f@ == "png"@ {
            (OutputFormat::Png, Seq::empty())
        } else {
            (
                OutputFormat::WebM,
                seq![diag_at(
                    codes::UNKNOWN_FIELD,
                    "unknown output format `"@ + f@ + "` (expected webm, mp4, gif, or png)"@,
                    "output.format"@,
                )],
            )
        },
    }
}

/// H.264 output needs an even canvas.
pub open spec fn odd_errors(format: OutputFormat, w: u32, h: u32) -> Seq<DiagView> {
    if format == OutputFormat::Mp4 && (w % 2 == 1 || h % 2 == 1) {
        seq![hinted(
            diag_at(
                codes::ODD_DIMENSION_FOR_H264,
                "H.264 requires even dimensions; canvas is "@ + decimal(w as nat) + "x"@ + decimal(h as nat),
                "canvas.width"@,
            ),
            "Round the canvas size to even numbers, or render to WebM instead."@,
        )]
    } else {
        Seq::empty()
    }
}

/// The codec, when one is named; an unknown name is an error.
pub open spec fn codec_spec(raw: RawScenario) -> (Option<Codec>, Seq<DiagView>) {
    match raw_output(raw).codec {
        None => (None, Seq::empty()),
        Some(c) => if c@ == "vp9"@ {
            (Some(Codec::Vp9), Seq::empty())
        } else if c@ == "h264"@ {
            (Some(Codec::H264), Seq::empty())
        } else {
            (
                None,
                seq![diag_at(
                    codes::UNKNOWN_FIELD,
                    "unknown codec `"@ + c@ + "` (expected vp9 or h264)"@,
                    "output.codec"@,
                )],
            )
        },
    }
}

/// The scenario's name, `untitled` when it has none.
pub open spec fn name_spec(raw: RawScenario) -> Seq<char> {
    match raw.metadata {
        Some(m) => text_or(m.name, "untitled"@),
        None => "untitled"@,
    }
}

/// Where output goes by default: the project's output directory, else `.`.
pub open spec fn output_dir_spec(ctx: ResolveContext) -> Seq<char> {
    match (ctx.project, ctx.project_root) {
        (Some(p), Some(root)) => joined(root@, output_rel(p)),
        _ => "."@,
    }
}

/// The output path: override, else scenario, else `<output dir>/<name>.<format>`.
pub open spec fn output_path_spec(raw: RawScenario, ctx: ResolveContext, format: OutputFormat) -> Seq<char> {
    match ctx.overrides.output {
        Some(o) => o@,
        None => match raw_output(raw).path {
            Some(p) => p@,
            None => joined(output_dir_spec(ctx), name_spec(raw) + "."@ + format_name(format)),
        },
    }
}

/// An output file name starting with `-` would be read by FFmpeg as an option.
pub open spec fn path_errors(path: Seq<char>) -> Seq<DiagView> {
    match file_name_of(path) {
        Some(n) => if n.len() > 0 && n[0] == '-' {
            seq![hinted(
                diag_at(
                    codes::BAD_OUTPUT_PATH,
                    "output.path `"@ + path
                        + "` starts with `-`, which FFmpeg would read as an option rather than a file path"@,
                    "output.path"@,
                ),
                "Rename the file so it does not start with `-`, or prefix the path with `./`."@,
            )]
        } else {
            Seq::empty()
        },
        None => Seq::empty(),
    }
}

/// Quality: override, else scenario, else 32.
pub open spec fn quality_spec(raw: RawScenario, ctx: ResolveContext) -> u8 {
    match ctx.overrides.quality {
        Some(q) => q,
        None => match raw_output(raw).quality {
            Some(q) => q,
            None => DEFAULT_QUALITY,
        },
    }
}

/// The highest quality value the format's encoder accepts, if it has a limit.
pub open spec fn quality_limit(format: OutputFormat) -> Option<u8> {
    match format {
        OutputFormat::WebM => Some(MAX_QUALITY_VP9),
        OutputFormat::Mp4 => Some(MAX_QUALITY_H264),
        _ => None,
    }
}

pub open spec fn quality_errors(q: u8, format: OutputFormat) -> Seq<DiagView> {
    match quality_limit(format) {
        Some(limit) => if q > limit {
            seq![hinted(
                diag_at(
                    codes::BAD_QUALITY,
                    "output.quality "@ + decimal(q as nat) + " is out of range for "@ + format_name(format)
                        + " (expected 0-"@ + decimal(limit as nat) + ")"@,
                    "output.quality"@,
                ),
                "Use a value between 0 and "@ + decimal(limit as nat) + " (lower is higher quality)."@,
            )]
        } else {
            Seq::empty()
        },
        None => Seq::empty(),
    }
}

fn resolve_format(raw: &RawScenario, ctx: &ResolveContext, errors: &mut Vec<Diagnostic>) -> (f: OutputFormat)
    ensures
        f == format_spec(*raw, *ctx).0,
        diags_view(final(errors)@) == diags_view(old(errors)@) + format_spec(*raw, *ctx).1,
{
    let ghost e0 = diags_view(errors@);
    let name: Option<&String> = match &ctx.overrides.format {
        Some(f) => Some(f),
        None => match &raw.output {
            Some(o) => match &o.format {
                Some(f) => Some(f),
                None => None,
            },
            None => None,
        },
    };
    let f = match name {
        None => OutputFormat::WebM,
        Some(f) => if str_eq(f.as_str(), "webm") {
            OutputFormat::WebM
        } else if str_eq(f.as_str(), "mp4") {
            OutputFormat::Mp4
        } else if str_eq(f.as_str(), "gif") {
            OutputFormat::Gif
        } else if str_eq(f.as_str(), "png") {
            OutputFormat::Png
        } else {
            proof {
                reveal_strlit("unknown output format `");
                reveal_strlit("` (expected webm, mp4, gif, or png)");
                reveal_strlit("output.format");
            }
            let mut msg = String::from_str("unknown output format `");
            msg.append(f.as_str());
            msg.append("` (expected webm, mp4, gif, or png)");
            push_diag(errors, Diagnostic::error(codes::UNKNOWN_FIELD, msg.as_str()).at_path("output.format"));
            OutputFormat::WebM
        },
    };
    proof {
        assert(diags_view(errors@) =~= e0 + format_spec(*raw, *ctx).1);
    }
    f
}

fn check_odd(format: OutputFormat, w: u32, h: u32, errors: &mut Vec<Diagnostic>)
    ensures
        diags_view(final(errors)@) == diags_view(old(errors)@) + odd_errors(format, w, h),
{
    let ghost e0 = diags_view(errors@);
    if format.requires_even_dimensions() && (w % 2 == 1 || h % 2 == 1) {
        proof {
            reveal_strlit("H.264 requires even dimensions; canvas is ");
            reveal_strlit("x");
            reveal_strlit("canvas.width");
            reveal_strlit("Round the canvas size to even numbers, or render to WebM instead.");
        }
        let mut msg = String::from_str("H.264 requires even dimensions; canvas is ");
        append_decimal(&mut msg, w as u64);
        msg.append("x");
        append_decimal(&mut msg, h as u64);
        push_diag(
            errors,
            Diagnostic::error(codes::ODD_DIMENSION_FOR_H264, msg.as_str()).at_path("canvas.width").with_hint(
                "Round the canvas size to even numbers, or render to WebM instead.",
            ),
        );
    }
    proof {
        assert(diags_view(errors@) =~= e0 + odd_errors(format, w, h));
    }
}

fn resolve_codec(raw: &RawScenario, errors: &mut Vec<Diagnostic>) -> (c: Option<Codec>)
    ensures
        c == codec_spec(*raw).0,
        diags_view(final(errors)@) == diags_view(old(errors)@) + codec_spec(*raw).1,
{
    let ghost e0 = diags_view(errors@);
    let name: Option<&String> = match &raw.output {
        Some(o) => match &o.codec {
            Some(c) => Some(c),
            None => None,
        },
        None => None,
    };
    let c = match name {
        None => None,
        Some(c) => if str_eq(c.as_str(), "vp9") {
            Some(Codec::Vp9)
        } else if str_eq(c.as_str(), "h264") {
            Some(Codec::H264)
        } else {
            proof {
                reveal_strlit("unknown codec `");
                reveal_strlit("` (expected vp9 or h264)");
                reveal_strlit("output.codec");
            }
            let mut msg = String::from_str("unknown codec `");
            msg.append(c.as_str());
            msg.append("` (expected vp9 or h264)");
            push_diag(errors, Diagnostic::error(codes::UNKNOWN_FIELD, msg.as_str()).at_path("output.codec"));
            None
        },
    };
    proof {
        assert(diags_view(errors@) =~= e0 + codec_spec(*raw).1);
    }
    c
}

fn scenario_name(raw: &RawScenario) -> (n: String)
    ensures
        n@ == name_spec(*raw),
{
    match &raw.metadata {
        Some(m) => string_or(&m.name, "untitled"),
        None => String::from_str("untitled"),
    }
}

fn output_path(raw: &RawScenario, ctx: &ResolveContext, format: OutputFormat, name: &str) -> (p: String)
    requires
        name@ == name_spec(*raw),
    ensures
        p@ == output_path_spec(*raw, *ctx, format),
{
    match &ctx.overrides.output {
        Some(o) => o.clone(),
        None => {
            let written: Option<&String> = match &raw.output {
                Some(o) => match &o.path {
                    Some(p) => Some(p),
                    None => None,
                },
                None => None,
            };
            match written {
                Some(p) => p.clone(),
                None => {
                    proof {
                        reveal_strlit(".");
                    }
                    let dir = match (&ctx.project, &ctx.project_root) {
                        (Some(p), Some(root)) => p.output_dir(root.as_str()),
                        _ => String::from_str("."),
                    };
                    let mut file = String::from_str(name);
                    file.append(".");
                    file.append(format.as_str());
                    join_path(dir.as_str(), file.as_str())
                },
            }
        },
    }
}

fn check_output_path(path: &str, errors: &mut Vec<Diagnostic>)
    ensures
        diags_view(final(errors)@) == diags_view(old(errors)@) + path_errors(path@),
{
    let ghost e0 = diags_view(errors@);
    match file_name(path) {
        Some(n) => {
            let chars = str_chars(n.as_str());
            if chars.len() > 0 && chars[0] == '-' {
                proof {
                    reveal_strlit("output.path `");
                    reveal_strlit(
                        "` starts with `-`, which FFmpeg would read as an option rather than a file path",
                    );
                    reveal_strlit("output.path");
                    reveal_strlit("Rename the file so it does not start with `-`, or prefix the path with `./`.");
                }
                let mut msg = String::from_str("output.path `");
                msg.append(path);
                msg.append(
                    "` starts with `-`, which FFmpeg would read as an option rather than a file path",
                );
                push_diag(
                    errors,
                    Diagnostic::error(codes::BAD_OUTPUT_PATH, msg.as_str()).at_path("output.path").with_hint(
                        "Rename the file so it does not start with `-`, or prefix the path with `./`.",
                    ),
                );
            }
        },
        None => {},
    }
    proof {
        assert(diags_view(errors@) =~= e0 + path_errors(path@));
    }
}

fn check_quality(q: u8, format: OutputFormat, errors: &mut Vec<Diagnostic>)
    ensures
        diags_view(final(errors)@) == diags_view(old(errors)@) + quality_errors(q, format),
{
    let ghost e0 = diags_view(errors@);
    let limit: Option<u8> = match format {
        OutputFormat::WebM => Some(MAX_QUALITY_VP9),
        OutputFormat::Mp4 => Some(MAX_QUALITY_H264),
        _ => None,
    };
    match limit {
        Some(limit) => {
            if q > limit {
                proof {
                    reveal_strlit("output.quality ");
                    reveal_strlit(" is out of range for ");
                    reveal_strlit(" (expected 0-");
                    reveal_strlit(")");
                    reveal_strlit("output.quality");
                    reveal_strlit("Use a value between 0 and ");
                    reveal_strlit(" (lower is higher quality).");
                }
                let mut msg = String::from_str("output.quality ");
                append_decimal(&mut msg, q as u64);
                msg.append(" is out of range for ");
                msg.append(format.as_str());
                msg.append(" (expected 0-");
                append_decimal(&mut msg, limit as u64);
                msg.append(")");
                let mut hint = String::from_str("Use a value between 0 and ");
                append_decimal(&mut hint, limit as u64);
                hint.append(" (lower is higher quality).");
                push_diag(
                    errors,
                    Diagnostic::error(codes::BAD_QUALITY, msg.as_str()).at_path("output.quality").with_hint(
                        hint.as_str(),
                    ),
                );
            }
        },
        None => {},
    }
    proof {
        assert(diags_view(errors@) =~= e0 + quality_errors(q, format));
    }
}

/// Whether the canvas is transparent: override, else scenario, else not.
pub open spec fn transparent_spec(raw: RawScenario, ctx: ResolveContext) -> bool {
    match ctx.overrides.transparent {
        Some(t) => t,
        None => match raw_canvas(raw).transparent {
            Some(t) => t,
            None => false,
        },
    }
}

/// The frame rate as a fraction: the chosen value over 1, or 30 when it is zero.
pub open spec fn fps_spec(v: u32) -> (u32, u32) {
    if v == 0 {
        (30, 1)
    } else {
        (v, 1)
    }
}

/// Every error resolution finds, in the order it checks: canvas, theme,
/// background, terminal region, overflow mode, font, cursor, playback, timeline,
/// output format, even dimensions, codec, output path, quality.
pub open spec fn resolve_errors(raw: RawScenario, ctx: ResolveContext) -> Seq<DiagView> {
    let w = width_spec(raw, ctx);
    let h = height_spec(raw, ctx);
    let (palette, e_theme) = palette_spec(raw, ctx);
    let format = format_spec(raw, ctx).0;
    canvas_errors(w, h, fps_value_spec(raw, ctx)) + e_theme + background_spec(raw, ctx, palette).1
        + bounds_errors(bounds_spec(raw, w, h), w, h) + overflow_spec(raw).1 + font_errors(
        font_spec(raw, ctx),
    ) + cursor_spec(raw).1 + playback_spec(raw, ctx).1 + timeline_spec(raw.timeline@, palette).1
        + format_spec(raw, ctx).1 + odd_errors(format, w, h) + codec_spec(raw).1 + path_errors(
        output_path_spec(raw, ctx, format),
    ) + quality_errors(quality_spec(raw, ctx), format)
}

/// The resolved scenario and output, when there are no errors.
pub open spec fn loaded_spec(raw: RawScenario, ctx: ResolveContext) -> LoadedView {
    let w = width_spec(raw, ctx);
    let h = height_spec(raw, ctx);
    let fps = fps_spec(fps_value_spec(raw, ctx));
    let palette = palette_spec(raw, ctx).0;
    let format = format_spec(raw, ctx).0;
    let transparent = transparent_spec(raw, ctx);
    LoadedView {
        scenario: ScenarioView {
            name: name_spec(raw),
            description: match raw.metadata {
                Some(m) => opt_view(m.description),
                None => None,
            },
            canvas: CanvasView {
                size: Size { width: w, height: h },
                fps,
                background: BackgroundConfig::Solid(background_spec(raw, ctx, palette).0),
                transparent,
            },
            terminal: TerminalConfig {
                bounds: bounds_spec(raw, w, h),
                padding: padding_spec(raw),
                overflow: overflow_spec(raw).0,
            },
            font: font_spec(raw, ctx),
            prompt: prompt_view_spec(raw),
            cursor: cursor_spec(raw).0,
            palette,
            playback: playback_spec(raw, ctx).0,
            seed: match raw.random {
                Some(r) => match r.seed {
                    Some(s) => s,
                    None => 0,
                },
                None => 0,
            },
            timeline: timeline_spec(raw.timeline@, palette).0,
        },
        output: OutputView {
            format,
            codec: codec_spec(raw).0,
            path: output_path_spec(raw, ctx, format),
            size: Size { width: w, height: h },
            fps,
            transparent,
            quality: quality_spec(raw, ctx),
            overwrite: ctx.overrides.overwrite,
        },
    }
}

/// Resolution: the loaded scenario when nothing is wrong, else every error.
pub open spec fn resolve_spec(raw: RawScenario, ctx: ResolveContext) -> Result<LoadedView, Seq<DiagView>> {
    let errors = resolve_errors(raw, ctx);
    if errors.len() > 0 {
        Err(errors)
    } else {
        Ok(loaded_spec(raw, ctx))
    }
}

pub open spec fn loaded_result_view(r: Result<Loaded, Vec<Diagnostic>>) -> Result<LoadedView, Seq<DiagView>> {
    match r {
        Ok(l) => Ok(l@),
        Err(v) => Err(diags_view(v@)),
    }
}

fn pick_u32(a: Option<u32>, b: Option<u32>, c: Option<u32>, d: u32) -> (r: u32)
    ensures
        r == u32_or(or_u32(a, or_u32(b, c)), d),
{
    match a {
        Some(x) => x,
        None => match b {
            Some(x) => x,
            None => match c {
                Some(x) => x,
                None => d,
            },
        },
    }
}

/// Resolves a raw scenario against the overrides, the project layer and the
/// chosen theme. Every problem found is reported, not just the first.
#[verifier::rlimit(40)]
pub fn resolve(raw: RawScenario, ctx: ResolveContext) -> (r: Result<Loaded, Vec<Diagnostic>>)
    ensures
        loaded_result_view(r) == resolve_spec(raw, ctx),
{
    let mut errors: Vec<Diagnostic> = Vec::new();
    let ghost ge = resolve_errors(raw, ctx);
    let (d_width, d_height, d_fps) = match &ctx.project {
        Some(p) => match &p.defaults {
            Some(d) => (d.width, d.height, d.fps),
            None => (None, None, None),
        },
        None => (None, None, None),
    };
    let (c_width, c_height, c_fps, c_transparent) = match &raw.canvas {
        Some(c) => (c.width, c.height, c.fps, c.transparent),
        None => (None, None, None, None),
    };
    let width = pick_u32(ctx.overrides.width, c_width, d_width, DEFAULT_CANVAS_WIDTH);
    let height = pick_u32(ctx.overrides.height, c_height, d_height, DEFAULT_CANVAS_HEIGHT);
    let fps_value = pick_u32(ctx.overrides.fps, c_fps, d_fps, DEFAULT_FPS);
    check_canvas(width, height, fps_value, &mut errors);
    let fps = match Fps::new(fps_value, 1) {
        Some(f) => f,
        None => Fps::from_integer(DEFAULT_FPS),
    };
    let transparent = match ctx.overrides.transparent {
        Some(t) => t,
        None => match c_transparent {
            Some(t) => t,
            None => false,
        },
    };
    let palette = resolve_palette(&raw, &ctx, &mut errors);
    let background = resolve_background(&raw, &ctx, &palette, &mut errors);
    let bounds = resolve_bounds(&raw, width, height, &mut errors);
    let padding = resolve_padding(&raw);
    let overflow = resolve_overflow(&raw, &mut errors);
    let font = resolve_font(&raw, &ctx, &mut errors);
    let prompt = resolve_prompt(&raw);
    let cursor = resolve_cursor(&raw, &mut errors);
    let playback = resolve_playback(&raw, &ctx, &mut errors);
    let timeline = resolve_timeline(&raw, &palette, &mut errors);
    let format = resolve_format(&raw, &ctx, &mut errors);
    check_odd(format, width, height, &mut errors);
    let codec = resolve_codec(&raw, &mut errors);
    let name = scenario_name(&raw);
    let path = output_path(&raw, &ctx, format, name.as_str());
    check_output_path(path.as_str(), &mut errors);
    let quality = match ctx.overrides.quality {
        Some(q) => q,
        None => match &raw.output {
            Some(o) => match o.quality {
                Some(q) => q,
                None => DEFAULT_QUALITY,
            },
            None => DEFAULT_QUALITY,
        },
    };
    check_quality(quality, format, &mut errors);
    proof {
        assert(diags_view(errors@) =~= ge);
    }
    if errors.len() > 0 {
        return Err(errors);
    }
    let description = match &raw.metadata {
        Some(m) => match &m.description {
            Some(d) => Some(d.clone()),
            None => None,
        },
        None => None,
    };
    let seed = match raw.random {
        Some(r) => match r.seed {
            Some(s) => s,
            None => 0,
        },
        None => 0,
    };
    let output = OutputConfig {
        format,
        codec,
        path,
        size: Size { width, height },
        fps,
        transparent,
        quality,
        overwrite: ctx.overrides.overwrite,
    };
    let scenario = Scenario {
        metadata: Metadata { name, description },
        canvas: CanvasConfig {
            size: Size { width, height },
            fps,
            background: BackgroundConfig::Solid(background),
            transparent,
        },
        terminal: TerminalConfig { bounds, padding, overflow },
        font,
        prompt,
        cursor,
        palette,
        playback,
        seed,
        timeline,
    };
    Ok(Loaded { scenario, output })
}

/// The `--output` flag wins: whenever it is given, a successful resolution writes
/// to exactly that path, whatever the scenario's `output.path` says; without the
/// flag, a path the scenario names is the one used.
pub proof fn lemma_output_flag_wins(raw: RawScenario, ctx: ResolveContext)
    ensures
        ctx.overrides.output matches Some(o) ==> (resolve_spec(raw, ctx) matches Ok(l)
            ==> l.output.path == o@),
        ctx.overrides.output is None ==> (raw_output(raw).path matches Some(p) ==> (resolve_spec(
            raw,
            ctx,
        ) matches Ok(l) ==> l.output.path == p@)),
{
}

} // verus!
