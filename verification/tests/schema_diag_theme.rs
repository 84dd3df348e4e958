use termotion::codes;
use termotion::color::Color;
use termotion::config::Palette;
use termotion::diag::{exit_code_for, Diagnostic, Position};
use termotion::theme::{
    builtin, list_builtin_names, load_theme, palette_from_theme, RawColors, RawPromptColors,
    RawStatusColors, RawTheme, ThemeFile, ThemeSource,
};

fn s(text: &str) -> Option<String> {
    Some(text.to_string())
}

#[test]
fn diagnostics_render_the_documented_format() {
    let diag = Diagnostic::error(
        codes::DURATION_NOT_POSITIVE,
        "timeline[4].duration must be greater than 0",
    )
    .at_path("timeline[4].duration")
    .at(Position { line: 28, column: 15 })
    .in_file("scenes/brb.yaml");
    let rendered = diag.render();
    assert!(rendered.contains("error[E014]:"), "got: {rendered}");
    assert!(rendered.contains("timeline[4].duration must be greater than 0"));
    assert!(rendered.contains("--> scenes/brb.yaml:28:15"), "got: {rendered}");
}

#[test]
fn hints_are_rendered_when_present() {
    let diag = Diagnostic::error(codes::FONT_NOT_FOUND, "font \"JetBrains Mono\" not found")
        .with_hint("Install the font or specify:\n\nfont:\n  path: ./assets/fonts/font.ttf");
    let rendered = diag.render();
    assert!(rendered.contains("hint:"));
    assert!(rendered.contains("path: ./assets/fonts/font.ttf"));
}

#[test]
fn diagnostics_without_a_location_still_render() {
    let rendered = Diagnostic::error(codes::UNSUPPORTED_VERSION, "unsupported version").render();
    assert!(rendered.contains("error[E001]:"));
    assert!(!rendered.contains("-->"));
}

#[test]
fn a_rendered_diagnostic_has_an_exact_text_form() {
    let rendered = Diagnostic::error(codes::BAD_COLOR, "bad")
        .at(Position { line: 2, column: 3 })
        .in_file("a.yaml")
        .with_hint("fix it")
        .render();
    assert_eq!(rendered, "error[E006]:\nbad\n\n --> a.yaml:2:3\n\nhint:\nfix it\n");
}

#[test]
fn error_codes_map_to_spec_exit_codes() {
    assert_eq!(Diagnostic::error(codes::YAML_SYNTAX, "x").exit_code(), 3);
    assert_eq!(Diagnostic::error(codes::DURATION_NOT_POSITIVE, "x").exit_code(), 4);
    assert_eq!(Diagnostic::error(codes::FONT_NOT_FOUND, "x").exit_code(), 5);
}

#[test]
fn the_exit_code_of_a_list_is_its_most_severe() {
    let list = vec![
        Diagnostic::error(codes::BAD_COLOR, "x"),
        Diagnostic::error(codes::FONT_NOT_FOUND, "y"),
        Diagnostic::error(codes::YAML_SYNTAX, "z"),
    ];
    assert_eq!(exit_code_for(&list), 5);
}

#[test]
fn every_documented_builtin_exists() {
    for name in [
        "terminal-green",
        "terminal-amber",
        "terminal-white",
        "matrix-green",
        "unix-dark",
        "retro-crt",
        "zombocoder",
    ] {
        assert!(builtin(name).is_some(), "missing built-in theme {name}");
    }
    assert!(builtin("nonexistent").is_none());
}

#[test]
fn builtin_names_are_listed_in_a_stable_order() {
    let names = list_builtin_names();
    assert_eq!(names.first(), Some(&"terminal-green"));
    assert!(names.contains(&"zombocoder"));
}

#[test]
fn every_listed_name_resolves_to_a_palette() {
    for name in list_builtin_names() {
        assert!(builtin(name).is_some());
    }
    assert_eq!(builtin("zombocoder"), Some(Palette::default()));
}

#[test]
fn parses_the_flat_color_map_form() {
    let raw = RawTheme {
        name: s("custom"),
        colors: Some(RawColors {
            background: s("#080b09"),
            foreground: s("#B6F7B0"),
            prompt_user: s("#39FF14"),
            cursor: s("#39FF14"),
            ..RawColors::default()
        }),
        ..RawTheme::default()
    };
    let palette = palette_from_theme(&raw).unwrap();
    assert_eq!(palette.background, Color::rgb(8, 11, 9));
    assert_eq!(palette.foreground, Color::rgb(0xB6, 0xF7, 0xB0));
    assert_eq!(palette.prompt_user, Color::rgb(0x39, 0xFF, 0x14));
}

#[test]
fn parses_the_nested_prompt_and_status_form() {
    let raw = RawTheme {
        name: s("zombocoder"),
        background: s("#080B09"),
        foreground: s("#C8E6C9"),
        prompt: Some(RawPromptColors {
            user: s("#39FF14"),
            host: s("#69D2FF"),
            path: s("#A7B0A7"),
            symbol: s("#39FF14"),
        }),
        status: Some(RawStatusColors {
            success: s("#39FF14"),
            pending: s("#F1C40F"),
            error: s("#FF4D4D"),
        }),
        cursor: s("#39FF14"),
        ..RawTheme::default()
    };
    let palette = palette_from_theme(&raw).unwrap();
    assert_eq!(palette.prompt_host, Color::rgb(0x69, 0xD2, 0xFF));
    assert_eq!(palette.warning, Color::rgb(0xF1, 0xC4, 0x0F));
    assert_eq!(palette.error, Color::rgb(0xFF, 0x4D, 0x4D));
}

#[test]
fn unspecified_colors_fall_back_to_defaults() {
    let raw = RawTheme {
        name: s("sparse"),
        colors: Some(RawColors { foreground: s("#FFFFFF"), ..RawColors::default() }),
        ..RawTheme::default()
    };
    let palette = palette_from_theme(&raw).unwrap();
    assert_eq!(palette.foreground, Color::white());
    assert_eq!(palette.muted, Palette::default().muted);
}

#[test]
fn malformed_colors_report_a_color_error() {
    let raw = RawTheme {
        name: s("bad"),
        colors: Some(RawColors { foreground: s("not-a-color"), ..RawColors::default() }),
        ..RawTheme::default()
    };
    let err = palette_from_theme(&raw).unwrap_err();
    assert_eq!(err.code, codes::BAD_COLOR);
    assert!(err.message.contains("foreground"));
    assert_eq!(err.path.as_deref(), Some("colors.foreground"));
}

#[test]
fn unknown_theme_names_report_the_available_ones() {
    let err = load_theme("nope", None).unwrap_err();
    assert_eq!(err.code, codes::UNKNOWN_THEME);
    assert!(err.message.contains("nope"));
    assert!(err.hint.as_deref().unwrap_or_default().contains("terminal-green"));
}

#[test]
fn a_project_theme_file_shadows_the_builtin() {
    let file = ThemeFile {
        path: "themes/zombocoder.yaml".to_string(),
        source: ThemeSource::Parsed(RawTheme {
            background: s("#000000"),
            ..RawTheme::default()
        }),
    };
    let palette = load_theme("zombocoder", Some(&file)).unwrap();
    assert_eq!(palette.background, Color::rgb(0, 0, 0));
    assert_eq!(palette.foreground, Palette::default().foreground);
}

#[test]
fn an_invalid_theme_file_is_a_syntax_error_in_that_file() {
    let file = ThemeFile {
        path: "themes/broken.yaml".to_string(),
        source: ThemeSource::Invalid("bad indentation".to_string()),
    };
    let err = load_theme("broken", Some(&file)).unwrap_err();
    assert_eq!(err.code, codes::YAML_SYNTAX);
    assert_eq!(err.file.as_deref(), Some("themes/broken.yaml"));
}
