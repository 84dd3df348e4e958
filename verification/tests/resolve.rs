use termotion::codes;
use termotion::config::{BackgroundConfig, MAX_CANVAS_DIMENSION};
use termotion::diag::Diagnostic;
use termotion::raw::{
    DurationReading, RawAction, RawDuration, RawCanvas, RawOutput, RawScenario, RawSpan, RawTerminal, RawThemeRef,
};
use termotion::resolve::{resolve, Loaded, Overrides, ResolveContext};
use termotion::scenario::Action;
use termotion::time::{DurationParseError, Fps, Time};

fn raw() -> RawScenario {
    RawScenario {
        version: 1,
        metadata: None,
        includes: vec![],
        variables: vec![],
        canvas: None,
        theme: None,
        terminal: None,
        font: None,
        prompt: None,
        cursor: None,
        playback: None,
        output: None,
        random: None,
        timeline: vec![],
    }
}

fn with_canvas(canvas: RawCanvas) -> RawScenario {
    RawScenario { canvas: Some(canvas), ..raw() }
}

fn with_output(output: RawOutput) -> RawScenario {
    RawScenario { output: Some(output), ..raw() }
}

fn with_timeline(timeline: Vec<RawAction>) -> RawScenario {
    RawScenario { timeline, ..raw() }
}

/// A duration field read as the command line's document reader reads it: the
/// number as an `f64`, times the unit's nanoseconds, rounded.
fn dur(text: &str) -> RawDuration {
    let t = text.trim();
    let reading = if t.is_empty() {
        DurationReading::Unreadable(DurationParseError::Empty)
    } else {
        match t.find(|c: char| c.is_ascii_alphabetic()) {
            None => DurationReading::Unreadable(DurationParseError::MissingUnit(t.to_string())),
            Some(split) => {
                let (number, unit) = t.split_at(split);
                match number.trim().parse::<f64>() {
                    Ok(v) if v.is_finite() && v >= 0.0 => {
                        let k = match unit.trim() {
                            "ms" => 1e6,
                            "s" => 1e9,
                            "m" => 6e10,
                            other => {
                                return RawDuration {
                                    text: text.to_string(),
                                    reading: DurationReading::Unreadable(DurationParseError::UnknownUnit(
                                        other.to_string(),
                                    )),
                                }
                            }
                        };
                        DurationReading::Read(Time::from_nanos((v * k).round() as u64))
                    }
                    Ok(v) if v.is_finite() => {
                        DurationReading::Unreadable(DurationParseError::Negative(t.to_string()))
                    }
                    _ => DurationReading::Unreadable(DurationParseError::InvalidNumber(number.trim().to_string())),
                }
            }
        }
    };
    RawDuration { text: text.to_string(), reading }
}

fn resolve_raw(raw: RawScenario) -> Result<Loaded, Vec<Diagnostic>> {
    resolve(raw, ResolveContext::default())
}

fn s(text: &str) -> Option<String> {
    Some(text.to_string())
}

#[test]
fn applies_documented_defaults() {
    let loaded = resolve_raw(raw()).unwrap();
    assert_eq!(loaded.scenario.canvas.size.width, 1920);
    assert_eq!(loaded.scenario.canvas.fps, Fps::from_integer(30));
    assert_eq!(f32::from_bits(loaded.scenario.font.size_bits), 40.0);
}

#[test]
fn scenario_values_beat_defaults() {
    let loaded = resolve_raw(with_canvas(RawCanvas {
        width: Some(1280),
        height: Some(720),
        fps: Some(60),
        ..RawCanvas::default()
    }))
    .unwrap();
    assert_eq!(loaded.scenario.canvas.size.width, 1280);
    assert_eq!(loaded.scenario.canvas.fps, Fps::from_integer(60));
}

#[test]
fn cli_overrides_beat_the_scenario() {
    let ctx = ResolveContext {
        overrides: Overrides { fps: Some(60), width: Some(3840), ..Overrides::default() },
        ..ResolveContext::default()
    };
    let loaded =
        resolve(with_canvas(RawCanvas { fps: Some(30), ..RawCanvas::default() }), ctx).unwrap();
    assert_eq!(loaded.scenario.canvas.fps, Fps::from_integer(60));
    assert_eq!(loaded.scenario.canvas.size.width, 3840);
}

#[test]
fn parses_durations_into_concrete_times() {
    let loaded =
        resolve_raw(with_timeline(vec![RawAction::Pause { duration: dur("2.5s") }]))
            .unwrap();
    match loaded.scenario.timeline[0] {
        Action::Pause { duration } => assert_eq!(duration, Time::from_millis(2_500)),
        ref other => panic!("expected pause, got {other:?}"),
    }
}

#[test]
fn a_plain_write_becomes_a_single_uncolored_run() {
    let loaded = resolve_raw(with_timeline(vec![RawAction::Write {
        text: s("hello"),
        spans: None,
        speed: None,
    }]))
    .unwrap();
    match &loaded.scenario.timeline[0] {
        Action::Write { spans, .. } => {
            assert_eq!(spans.len(), 1);
            assert_eq!(spans[0].text, "hello");
            assert!(spans[0].color.is_none());
        }
        other => panic!("expected write, got {other:?}"),
    }
}

#[test]
fn span_color_names_resolve_against_the_palette() {
    let raw = RawScenario {
        theme: Some(RawThemeRef::Ref { reference: "zombocoder".to_string() }),
        timeline: vec![RawAction::Write {
            text: None,
            spans: Some(vec![RawSpan { text: "hot".to_string(), color: s("warning") }]),
            speed: None,
        }],
        ..raw()
    };
    let loaded = resolve_raw(raw).unwrap();
    match &loaded.scenario.timeline[0] {
        Action::Write { spans, .. } => {
            assert_eq!(spans[0].color, Some(loaded.scenario.palette.warning));
        }
        other => panic!("expected write, got {other:?}"),
    }
}

#[test]
fn zero_pause_duration_is_error_e014() {
    let errs = resolve_raw(with_timeline(vec![RawAction::Pause { duration: dur("0ms") }]))
        .unwrap_err();
    assert_eq!(errs[0].code, codes::DURATION_NOT_POSITIVE);
    assert_eq!(errs[0].path.as_deref(), Some("timeline[0].duration"));
}

#[test]
fn zero_canvas_dimensions_are_rejected() {
    let errs = resolve_raw(with_canvas(RawCanvas { width: Some(0), ..RawCanvas::default() }))
        .unwrap_err();
    assert_eq!(errs[0].code, codes::BAD_DIMENSION);
}

#[test]
fn an_absurd_canvas_is_rejected_instead_of_reaching_render() {
    let errs = resolve_raw(with_canvas(RawCanvas {
        width: Some(4294967295),
        height: Some(4294967295),
        ..RawCanvas::default()
    }))
    .unwrap_err();
    assert!(errs.iter().any(|e| e.code == codes::BAD_DIMENSION), "expected BAD_DIMENSION among {errs:?}");
}

#[test]
fn a_canvas_dimension_just_over_the_limit_is_rejected() {
    let errs = resolve_raw(with_canvas(RawCanvas {
        width: Some(MAX_CANVAS_DIMENSION + 1),
        height: Some(1080),
        ..RawCanvas::default()
    }))
    .unwrap_err();
    assert_eq!(errs[0].code, codes::BAD_DIMENSION);
}

#[test]
fn a_canvas_at_exactly_the_limit_is_accepted() {
    let raw = RawScenario {
        canvas: Some(RawCanvas {
            width: Some(MAX_CANVAS_DIMENSION),
            height: Some(MAX_CANVAS_DIMENSION),
            fps: Some(24),
            ..RawCanvas::default()
        }),
        output: Some(RawOutput { format: s("webm"), ..RawOutput::default() }),
        ..raw()
    };
    assert!(resolve_raw(raw).is_ok());
}

#[test]
fn an_output_path_starting_with_a_dash_is_rejected() {
    let errs =
        resolve_raw(with_output(RawOutput { path: s("-loglevel"), ..RawOutput::default() }))
            .unwrap_err();
    assert_eq!(errs[0].code, codes::BAD_OUTPUT_PATH);
    assert_eq!(errs[0].path.as_deref(), Some("output.path"));
}

#[test]
fn an_output_path_starting_with_a_dash_is_rejected_even_with_a_directory_prefix() {
    let errs = resolve_raw(with_output(RawOutput {
        path: s("out/-loglevel.webm"),
        ..RawOutput::default()
    }))
    .unwrap_err();
    assert_eq!(errs[0].code, codes::BAD_OUTPUT_PATH);
}

#[test]
fn an_ordinary_output_path_is_accepted() {
    let loaded =
        resolve_raw(with_output(RawOutput { path: s("out/render.webm"), ..RawOutput::default() }))
            .unwrap();
    assert_eq!(loaded.output.path, "out/render.webm");
}

#[test]
fn zero_fps_is_rejected() {
    let errs =
        resolve_raw(with_canvas(RawCanvas { fps: Some(0), ..RawCanvas::default() })).unwrap_err();
    assert_eq!(errs[0].code, codes::BAD_DIMENSION);
}

#[test]
fn a_terminal_outside_the_canvas_is_rejected() {
    let raw = RawScenario {
        canvas: Some(RawCanvas { width: Some(640), height: Some(480), ..RawCanvas::default() }),
        terminal: Some(RawTerminal {
            x: Some(100),
            y: Some(100),
            width: Some(2000),
            height: Some(200),
            ..RawTerminal::default()
        }),
        ..raw()
    };
    let errs = resolve_raw(raw).unwrap_err();
    assert_eq!(errs[0].code, codes::TERMINAL_OUT_OF_BOUNDS);
}

fn sized(width: u32, height: u32, format: &str, quality: Option<u8>) -> RawScenario {
    RawScenario {
        canvas: Some(RawCanvas { width: Some(width), height: Some(height), ..RawCanvas::default() }),
        output: Some(RawOutput { format: s(format), quality, ..RawOutput::default() }),
        ..raw()
    }
}

#[test]
fn odd_dimensions_are_rejected_only_for_mp4() {
    let errs = resolve_raw(sized(1921, 1080, "mp4", None)).unwrap_err();
    assert_eq!(errs[0].code, codes::ODD_DIMENSION_FOR_H264);
    assert!(resolve_raw(sized(1921, 1080, "webm", None)).is_ok());
}

#[test]
fn quality_above_the_codecs_crf_range_is_rejected() {
    let webm = RawScenario {
        output: Some(RawOutput { format: s("webm"), quality: Some(90), ..RawOutput::default() }),
        ..raw()
    };
    let errs = resolve_raw(webm).unwrap_err();
    assert_eq!(errs[0].code, codes::BAD_QUALITY);
    assert_eq!(errs[0].path.as_deref(), Some("output.quality"));
    let errs = resolve_raw(sized(640, 480, "mp4", Some(55))).unwrap_err();
    assert_eq!(errs[0].code, codes::BAD_QUALITY);
}

#[test]
fn quality_within_range_is_accepted_for_both_codecs() {
    let webm = RawScenario {
        output: Some(RawOutput { format: s("webm"), quality: Some(63), ..RawOutput::default() }),
        ..raw()
    };
    assert!(resolve_raw(webm).is_ok());
    assert!(resolve_raw(sized(640, 480, "mp4", Some(51))).is_ok());
}

#[test]
fn zero_newline_and_backspace_counts_are_rejected() {
    let errs = resolve_raw(with_timeline(vec![RawAction::Newline { count: Some(0) }])).unwrap_err();
    assert_eq!(errs[0].code, codes::DURATION_NOT_POSITIVE);
}

#[test]
fn pause_random_requires_min_below_max() {
    let errs = resolve_raw(with_timeline(vec![RawAction::PauseRandom {
        min: dur("600ms"),
        max: dur("300ms"),
        seed: None,
    }]))
    .unwrap_err();
    assert_eq!(errs[0].code, codes::DURATION_NOT_POSITIVE);
}

#[test]
fn all_validation_errors_are_collected_not_just_the_first() {
    let raw = RawScenario {
        canvas: Some(RawCanvas { width: Some(0), fps: Some(0), ..RawCanvas::default() }),
        timeline: vec![RawAction::Pause { duration: dur("0ms") }],
        ..raw()
    };
    let errs = resolve_raw(raw).unwrap_err();
    assert!(errs.len() >= 3, "expected several diagnostics, got {errs:?}");
}

#[test]
fn bad_colors_report_their_field_path() {
    let errs = resolve_raw(with_canvas(RawCanvas { background: s("zzz"), ..RawCanvas::default() }))
        .unwrap_err();
    assert_eq!(errs[0].code, codes::BAD_COLOR);
    assert_eq!(errs[0].path.as_deref(), Some("canvas.background"));
}

#[test]
fn transparent_canvas_propagates_to_the_output_config() {
    let loaded =
        resolve_raw(with_canvas(RawCanvas { transparent: Some(true), ..RawCanvas::default() }))
            .unwrap();
    assert!(loaded.scenario.canvas.transparent);
    assert!(loaded.output.transparent);
}

#[test]
fn metadata_name_defaults_to_untitled() {
    let loaded = resolve_raw(raw()).unwrap();
    assert_eq!(loaded.scenario.metadata.name, "untitled");
}

#[test]
fn an_unknown_theme_is_reported_with_the_available_names() {
    let raw = RawScenario { theme: Some(RawThemeRef::Named("nope".to_string())), ..raw() };
    let errs = resolve_raw(raw).unwrap_err();
    assert_eq!(errs[0].code, codes::UNKNOWN_THEME);
}

#[test]
fn a_palette_name_sets_the_background() {
    let loaded =
        resolve_raw(with_canvas(RawCanvas { background: s("muted"), ..RawCanvas::default() })).unwrap();
    assert_eq!(
        loaded.scenario.canvas.background,
        BackgroundConfig::Solid(loaded.scenario.palette.muted)
    );
}

#[test]
fn the_background_flag_takes_a_palette_name_or_a_hex_value() {
    let named = resolve(
        raw(),
        ResolveContext {
            overrides: Overrides { background: s("warning"), ..Overrides::default() },
            ..ResolveContext::default()
        },
    )
    .unwrap();
    assert_eq!(named.scenario.canvas.background, BackgroundConfig::Solid(named.scenario.palette.warning));
    let hex = resolve(
        raw(),
        ResolveContext {
            overrides: Overrides { background: s("#102030"), ..Overrides::default() },
            ..ResolveContext::default()
        },
    )
    .unwrap();
    assert_eq!(hex.scenario.canvas.background, BackgroundConfig::Solid(termotion::color::Color::rgb(0x10, 0x20, 0x30)));
}

#[test]
fn an_unreadable_duration_reports_why_at_its_path() {
    let errs = resolve_raw(with_timeline(vec![RawAction::Pause { duration: dur("500h") }])).unwrap_err();
    assert_eq!(errs[0].code, codes::BAD_DURATION);
    assert_eq!(errs[0].path.as_deref(), Some("timeline[0].duration"));
    assert_eq!(errs[0].message, "duration unit `h` is not one of ms, s, m");
}

#[test]
fn a_duration_resolves_to_its_reading() {
    let read = dur("12345678901234ms");
    assert_eq!(read.reading, DurationReading::Read(Time::from_nanos(12_345_678_901_233_999_872)));
    let loaded = resolve_raw(with_timeline(vec![RawAction::Pause { duration: read }])).unwrap();
    assert_eq!(
        loaded.scenario.timeline[0],
        Action::Pause { duration: Time::from_nanos(12_345_678_901_233_999_872) }
    );
}
