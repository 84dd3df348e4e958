use termotion::color::{parse_color, Color, ColorParseError};
use termotion::config::{CanvasConfig, OutputFormat, Palette, PromptConfig};
use termotion::frame::Frame;
use termotion::geom::{Padding, Rect};
use termotion::style::{StyleId, StyleTable, TextStyle};
use termotion::time::{Fps, Time};

#[test]
fn parses_six_digit_hex() {
    assert_eq!(parse_color("#080b09").unwrap(), Color { r: 8, g: 11, b: 9, a: 255 });
    assert_eq!(parse_color("#39FF14").unwrap(), Color { r: 57, g: 255, b: 20, a: 255 });
}

#[test]
fn parses_three_digit_shorthand() {
    assert_eq!(parse_color("#0f8").unwrap(), Color { r: 0, g: 255, b: 136, a: 255 });
}

#[test]
fn parses_eight_digit_hex_with_alpha() {
    assert_eq!(parse_color("#39FF1480").unwrap(), Color { r: 57, g: 255, b: 20, a: 128 });
}

#[test]
fn is_case_insensitive_and_trims() {
    assert_eq!(parse_color("  #abcdef  ").unwrap(), parse_color("#ABCDEF").unwrap());
}

#[test]
fn rejects_malformed_colors() {
    assert!(matches!(parse_color("080b09"), Err(ColorParseError::MissingHash(_))));
    assert!(matches!(parse_color("#0806"), Err(ColorParseError::BadLength(_))));
    assert!(matches!(parse_color("#gggggg"), Err(ColorParseError::BadDigit(_))));
    assert!(matches!(parse_color(""), Err(ColorParseError::MissingHash(_))));
}

#[test]
fn color_errors_read_as_sentences() {
    let err = parse_color("  #gg0000 ").unwrap_err();
    assert_eq!(err, ColorParseError::BadDigit("#gg0000".to_string()));
    assert_eq!(err.message(), "color `#gg0000` contains a non-hexadecimal digit");
}

fn zombocoder_prompt() -> PromptConfig {
    PromptConfig {
        user: "zombocoder".into(),
        host: "twitch".into(),
        path: "~".into(),
        symbol: "$".into(),
    }
}

#[test]
fn prompt_renders_the_documented_form() {
    let spans = zombocoder_prompt().spans(&Palette::default());
    let text: String = spans.iter().map(|(t, _)| t.as_str()).collect();
    assert_eq!(text, "zombocoder@twitch:~$ ");
}

#[test]
fn prompt_segments_carry_distinct_palette_colors() {
    let palette = Palette {
        prompt_user: Color::rgb(57, 255, 20),
        prompt_host: Color::rgb(105, 210, 255),
        prompt_path: Color::rgb(167, 176, 167),
        ..Palette::default()
    };
    let spans = zombocoder_prompt().spans(&palette);
    assert_eq!(spans[0].1.fg, Color::rgb(57, 255, 20));
    assert_eq!(spans[2].1.fg, Color::rgb(105, 210, 255));
    assert_eq!(spans[4].1.fg, Color::rgb(167, 176, 167));
}

#[test]
fn root_symbol_is_configurable() {
    let prompt = PromptConfig {
        user: "root".into(),
        host: "box".into(),
        path: "/".into(),
        symbol: "#".into(),
    };
    let text: String = prompt.spans(&Palette::default()).iter().map(|(t, _)| t.as_str()).collect();
    assert_eq!(text, "root@box:/# ");
}

#[test]
fn canvas_defaults_match_the_spec() {
    let canvas = CanvasConfig::default();
    assert_eq!(canvas.size.width, 1920);
    assert_eq!(canvas.size.height, 1080);
    assert_eq!(canvas.fps, Fps::from_integer(30));
    assert!(!canvas.transparent);
}

#[test]
fn h264_rejects_odd_dimensions() {
    assert!(OutputFormat::Mp4.requires_even_dimensions());
    assert!(!OutputFormat::Png.requires_even_dimensions());
    assert!(!OutputFormat::WebM.requires_even_dimensions());
}

#[test]
fn new_frames_are_fully_transparent() {
    let frame = Frame::new(4, 3);
    assert_eq!(frame.width(), 4);
    assert_eq!(frame.height(), 3);
    assert_eq!(frame.data().len(), 4 * 3 * 4);
    assert!(frame.data().iter().all(|byte| *byte == 0));
}

#[test]
fn fill_sets_every_pixel() {
    let mut frame = Frame::new(2, 2);
    frame.fill(Color::rgb(10, 20, 30));
    assert_eq!(frame.pixel(1, 1), Color::rgb(10, 20, 30));
}

#[test]
fn full_coverage_blend_replaces_the_pixel() {
    let mut frame = Frame::new(2, 2);
    frame.fill(Color::black());
    frame.blend(0, 0, Color::rgb(255, 0, 0), 255);
    assert_eq!(frame.pixel(0, 0), Color::rgb(255, 0, 0));
}

#[test]
fn zero_coverage_blend_is_a_no_op() {
    let mut frame = Frame::new(2, 2);
    frame.fill(Color::black());
    frame.blend(0, 0, Color::white(), 0);
    assert_eq!(frame.pixel(0, 0), Color::black());
}

#[test]
fn half_coverage_blends_toward_the_source() {
    let mut frame = Frame::new(1, 1);
    frame.fill(Color::black());
    frame.blend(0, 0, Color::rgb(200, 200, 200), 128);
    let px = frame.pixel(0, 0);
    assert!((90..=110).contains(&px.r), "got {}", px.r);
    assert_eq!(px.a, 255);
}

#[test]
fn half_coverage_blend_has_an_exact_value() {
    // src_a = 255 * 128 / 255 = 128; out_a = 128 + 255 * 127 / 255 = 255;
    // r = (200 * 128 + 0) / 255 = 100.
    let mut frame = Frame::new(1, 1);
    frame.fill(Color::black());
    frame.blend(0, 0, Color::rgb(200, 200, 200), 128);
    assert_eq!(frame.pixel(0, 0), Color::rgba(100, 100, 100, 255));
}

#[test]
fn blending_onto_transparent_raises_alpha() {
    let mut frame = Frame::new(1, 1);
    frame.blend(0, 0, Color::rgb(255, 255, 255), 128);
    let px = frame.pixel(0, 0);
    assert!(px.a > 0 && px.a < 255, "alpha should be partial, got {}", px.a);
}

#[test]
fn overflowing_dimensions_degrade_to_an_empty_frame_instead_of_wrapping() {
    let frame = Frame::new(u32::MAX, u32::MAX);
    assert_eq!(frame.width(), 0);
    assert_eq!(frame.height(), 0);
    assert!(frame.data().is_empty());
    assert_eq!(frame.pixel(0, 0), Color::transparent());
}

#[test]
fn out_of_bounds_blends_are_ignored() {
    let mut frame = Frame::new(2, 2);
    frame.blend(-5, 0, Color::white(), 255);
    frame.blend(0, 99, Color::white(), 255);
    assert!(frame.data().iter().all(|byte| *byte == 0));
}

#[test]
fn fill_rows_paints_only_the_band_inside_the_frame() {
    let mut frame = Frame::new(2, 4);
    frame.fill(Color::black());
    frame.fill_rows(1, 2, false, Color::rgb(1, 2, 3));
    assert_eq!(frame.pixel(0, 0), Color::black());
    assert_eq!(frame.pixel(1, 1), Color::rgb(1, 2, 3));
    assert_eq!(frame.pixel(0, 2), Color::rgb(1, 2, 3));
    assert_eq!(frame.pixel(0, 3), Color::black());
    frame.fill_rows(-3, 4, true, Color::white());
    assert_eq!(frame.pixel(0, 0), Color::transparent());
    assert_eq!(frame.pixel(0, 1), Color::rgb(1, 2, 3));
}

#[test]
fn padding_uniform_sets_every_side() {
    let p = Padding::uniform(50);
    assert_eq!((p.top, p.right, p.bottom, p.left), (50, 50, 50, 50));
}

#[test]
fn padding_reports_axis_totals() {
    let p = Padding { top: 10, right: 20, bottom: 30, left: 40 };
    assert_eq!(p.horizontal(), 60);
    assert_eq!(p.vertical(), 40);
}

#[test]
fn rect_shrinks_by_padding_and_saturates() {
    let r = Rect { x: 100, y: 100, width: 1720, height: 880 };
    let inner = r.inset(Padding::uniform(50));
    assert_eq!(inner, Rect { x: 150, y: 150, width: 1620, height: 780 });
    let tiny = Rect { x: 0, y: 0, width: 10, height: 10 };
    assert_eq!(tiny.inset(Padding::uniform(50)).width, 0);
}

#[test]
fn default_style_is_always_id_zero() {
    let table = StyleTable::new();
    assert_eq!(StyleId::default_id().index(), 0);
    assert_eq!(table.get(StyleId::default_id()), TextStyle::default());
}

#[test]
fn identical_styles_intern_to_the_same_id() {
    let mut table = StyleTable::new();
    let green = TextStyle { fg: Color::rgb(57, 255, 20), ..TextStyle::default() };
    let a = table.intern(green);
    let b = table.intern(green);
    assert_eq!(a, b);
    assert_eq!(table.len(), 2);
}

#[test]
fn distinct_styles_get_distinct_ids() {
    let mut table = StyleTable::new();
    let a = table.intern(TextStyle { fg: Color::white(), ..TextStyle::default() });
    let b = table.intern(TextStyle { fg: Color::white(), bold: true, ..TextStyle::default() });
    assert_ne!(a, b);
    assert!(table.get(b).bold);
}

#[test]
fn unknown_id_falls_back_to_default_rather_than_panicking() {
    let table = StyleTable::new();
    assert_eq!(table.get(StyleId::from_index(9999)), TextStyle::default());
}

#[test]
fn frame_timestamps_are_exact_integers() {
    let fps = Fps::from_integer(30);
    assert_eq!(fps.frame_time(0), Time::from_nanos(0));
    assert_eq!(fps.frame_time(1), Time::from_nanos(33_333_333));
    assert_eq!(fps.frame_time(30), Time::from_nanos(1_000_000_000));
    assert_eq!(fps.frame_time(90), Time::from_nanos(3_000_000_000));
}

#[test]
fn supports_ntsc_rational_rates() {
    let fps = Fps::new(30_000, 1_001).unwrap();
    assert_eq!(fps.frame_time(1), Time::from_nanos(33_366_666));
}

#[test]
fn frame_count_covers_the_whole_duration() {
    let fps = Fps::from_integer(30);
    assert_eq!(fps.frame_count(Time::from_millis(1_000)), 30);
    assert_eq!(fps.frame_count(Time::from_millis(1_001)), 31);
    assert_eq!(fps.frame_count(Time::zero()), 0);
}

#[test]
fn the_frame_after_the_count_starts_at_or_after_the_end() {
    let fps = Fps::from_integer(30);
    let d = Time::from_millis(1_001);
    let n = fps.frame_count(d);
    assert!(fps.frame_time(n - 1).as_nanos() < d.as_nanos());
    assert!(fps.frame_time(n).as_nanos() >= d.as_nanos());
}

#[test]
fn rejects_zero_fps() {
    assert!(Fps::new(0, 1).is_none());
    assert!(Fps::new(30, 0).is_none());
}

#[test]
fn bytes_written_in_place_become_the_frame() {
    let mut frame = Frame::new(2, 1);
    frame.data_mut()[4..8].copy_from_slice(&[9, 8, 7, 6]);
    assert_eq!(frame.pixel(1, 0), Color::rgba(9, 8, 7, 6));
    assert_eq!(frame.pixel(0, 0), Color::transparent());
}

#[test]
fn an_integer_rate_is_that_rate_over_one() {
    assert_eq!(Fps::from_integer(30), Fps::new(30, 1).unwrap());
    assert_ne!(Fps::from_integer(30), Fps::new(30, 2).unwrap());
}
