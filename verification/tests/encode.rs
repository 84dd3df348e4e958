use termotion::codes;
use termotion::color::Color;
use termotion::config::{OutputConfig, OutputFormat};
use termotion::diag::Diagnostic;
use termotion::encode::{
    check_frame_size, discovery_failure, early_close_failure, encoder_for, exit_failure,
    ffmpeg_begin, frame_file_name, is_frame_file_name, EncodeError, EncoderKind,
    PngSequenceEncoder,
};
use termotion::ffmpeg::{ffmpeg_args, has_encoder, parse_version, FfmpegError};
use termotion::frame::Frame;
use termotion::geom::Size;
use termotion::pipeline::{
    frame_total, to_diagnostic, FontError, PipelineError, RenderError,
};
use termotion::time::{Fps, Time};

fn config(path: &str, format: OutputFormat) -> OutputConfig {
    OutputConfig {
        format,
        codec: None,
        path: path.to_string(),
        size: Size { width: 4, height: 2 },
        fps: Fps::from_integer(30),
        transparent: false,
        quality: 32,
        overwrite: true,
    }
}

fn frame(color: Color) -> Frame {
    let mut frame = Frame::new(4, 2);
    frame.fill(color);
    frame
}

#[test]
fn parses_the_version_banner() {
    let banner = "ffmpeg version 8.0.1 Copyright (c) 2000-2025 the FFmpeg developers\nbuilt with Apple clang\n";
    assert_eq!(parse_version(banner).as_deref(), Some("8.0.1"));
}

#[test]
fn parses_distro_version_strings() {
    let banner = "ffmpeg version n6.1.1-1ubuntu1 Copyright (c)\n";
    assert_eq!(parse_version(banner).as_deref(), Some("n6.1.1-1ubuntu1"));
}

#[test]
fn unrecognized_banners_yield_none() {
    assert!(parse_version("not ffmpeg at all").is_none());
}

#[test]
fn detects_encoders_in_the_encoder_listing() {
    let listing =
        " V....D libvpx-vp9           libvpx VP9\n V..... libx264              libx264 H.264\n";
    assert!(has_encoder(listing, "libvpx-vp9"));
    assert!(has_encoder(listing, "libx264"));
    assert!(!has_encoder(listing, "libaom-av1"));
}

#[test]
fn encoder_name_match_is_column_based_not_substring() {
    let listing = " V....D libx264rgb           libx264 H.264 RGB\n V..... libaom-av1           libaom AV1, replaces libx264 in some builds\n";
    assert!(!has_encoder(listing, "libx264"));
}

#[test]
fn the_output_argument_is_prefixed_with_the_file_protocol() {
    let mut cfg = config("tcp://127.0.0.1:9999", OutputFormat::WebM);
    cfg.size = Size { width: 4, height: 2 };
    let args = ffmpeg_args(&cfg);
    assert_eq!(args.last().map(String::as_str), Some("file:tcp://127.0.0.1:9999"));
}

#[test]
fn the_webm_argument_vector_is_exact() {
    let cfg = config("out.webm", OutputFormat::WebM);
    assert_eq!(
        ffmpeg_args(&cfg).join(" "),
        "-hide_banner -y -f rawvideo -pix_fmt rgba -s 4x2 -r 30/1 -i - -c:v libvpx-vp9 -pix_fmt yuv420p -crf 32 -b:v 0 file:out.webm"
    );
    let mp4 = config("out.mp4", OutputFormat::Mp4);
    assert_eq!(
        ffmpeg_args(&mp4).join(" "),
        "-hide_banner -y -f rawvideo -pix_fmt rgba -s 4x2 -r 30/1 -i - -c:v libx264 -pix_fmt yuv420p -crf 32 -movflags +faststart file:out.mp4"
    );
}

#[test]
fn ffmpeg_errors_read_as_sentences() {
    assert_eq!(
        FfmpegError::NotFound { path: "/x/ffmpeg".to_string() }.message(),
        "ffmpeg not found at `/x/ffmpeg`"
    );
    assert_eq!(
        FfmpegError::MissingEncoder("libx264").message(),
        "ffmpeg was built without the `libx264` encoder"
    );
    let e = discovery_failure(&FfmpegError::Spawn("denied".to_string()));
    assert_eq!(e.message(), "ffmpeg: ffmpeg failed to start: denied");
}

#[test]
fn encoders_are_chosen_by_format() {
    assert_eq!(encoder_for(&config("o", OutputFormat::Png)), Ok(EncoderKind::PngSequence));
    assert_eq!(encoder_for(&config("o", OutputFormat::WebM)), Ok(EncoderKind::Ffmpeg));
    assert_eq!(encoder_for(&config("o", OutputFormat::Mp4)), Ok(EncoderKind::Ffmpeg));
    let err = encoder_for(&config("o", OutputFormat::Gif)).unwrap_err();
    assert_eq!(err, EncodeError::UnsupportedFormat("gif"));
    assert_eq!(err.message(), "output format gif is not supported yet");
}

#[test]
fn writes_one_file_per_frame_with_six_digit_names() {
    let mut encoder = PngSequenceEncoder::new();
    encoder.begin(&config("frames", OutputFormat::Png), false).unwrap();
    let mut paths = Vec::new();
    for _ in 0..3 {
        paths.push(encoder.push_frame(&frame(Color::rgb(1, 2, 3))).unwrap().path);
    }
    assert_eq!(paths, vec!["frames/000001.png", "frames/000002.png", "frames/000003.png"]);
    assert!(!paths.contains(&"frames/000004.png".to_string()));
    assert_eq!(encoder.frames_written(), 3);
}

#[test]
fn written_pngs_round_trip_with_the_right_pixels() {
    let mut encoder = PngSequenceEncoder::new();
    encoder.begin(&config("rt", OutputFormat::Png), false).unwrap();
    let file = encoder.push_frame(&frame(Color::rgba(10, 20, 30, 255))).unwrap();
    let decoder = png::Decoder::new(std::io::Cursor::new(file.bytes));
    let mut reader = decoder.read_info().unwrap();
    let mut buf = vec![0; reader.output_buffer_size().unwrap()];
    let info = reader.next_frame(&mut buf).unwrap();
    assert_eq!(info.width, 4);
    assert_eq!(info.height, 2);
    assert_eq!(info.color_type, png::ColorType::Rgba);
    assert_eq!(&buf[0..4], &[10, 20, 30, 255]);
}

#[test]
fn alpha_is_preserved_for_transparent_frames() {
    let mut cfg = config("alpha", OutputFormat::Png);
    cfg.transparent = true;
    let mut encoder = PngSequenceEncoder::new();
    encoder.begin(&cfg, false).unwrap();
    let file = encoder.push_frame(&Frame::new(4, 2)).unwrap();
    let mut reader = png::Decoder::new(std::io::Cursor::new(file.bytes)).read_info().unwrap();
    let mut buf = vec![0; reader.output_buffer_size().unwrap()];
    reader.next_frame(&mut buf).unwrap();
    assert_eq!(buf[3], 0, "alpha must survive the round trip");
}

#[test]
fn refuses_to_overwrite_an_existing_directory_without_the_flag() {
    let mut cfg = config("occupied", OutputFormat::Png);
    cfg.overwrite = false;
    let mut encoder = PngSequenceEncoder::new();
    let err = encoder.begin(&cfg, true).unwrap_err();
    assert!(matches!(err, EncodeError::OutputExists { .. }));
    assert_eq!(err.message(), "`occupied` already exists; pass --overwrite to replace it");
    cfg.overwrite = true;
    assert!(encoder.begin(&cfg, true).is_ok());
}

#[test]
fn overwrite_clears_stale_frames_from_a_longer_previous_render() {
    for index in [1u64, 5, 99, 999_999] {
        assert!(is_frame_file_name(&frame_file_name(index)));
    }
    assert!(is_frame_file_name("000005.png"));
}

#[test]
fn overwrite_does_not_touch_unrelated_files_in_the_directory() {
    assert!(!is_frame_file_name("notes.txt"));
    assert!(!is_frame_file_name("00001.png"));
    assert!(!is_frame_file_name("0000001.png"));
    assert!(!is_frame_file_name("00000a.png"));
    assert!(!is_frame_file_name("000001.PNG"));
}

#[test]
fn frame_names_are_zero_padded_to_six_digits() {
    assert_eq!(frame_file_name(1), "000001.png");
    assert_eq!(frame_file_name(42), "000042.png");
    assert_eq!(frame_file_name(1_234_567), "1234567.png");
}

#[test]
fn png_seq_a_frame_of_the_wrong_size_is_rejected() {
    let mut encoder = PngSequenceEncoder::new();
    encoder.begin(&config("size", OutputFormat::Png), false).unwrap();
    let err = encoder.push_frame(&Frame::new(8, 8)).unwrap_err();
    assert!(matches!(err, EncodeError::FrameSizeMismatch { .. }));
    assert_eq!(
        err.message(),
        "frame is Size { width: 8, height: 8 } but the encoder was configured for Size { width: 4, height: 2 }"
    );
    assert_eq!(encoder.frames_written(), 0);
}

#[test]
fn every_encoder_checks_the_frame_size() {
    assert!(check_frame_size(Size { width: 4, height: 2 }, &Frame::new(4, 2)).is_ok());
    assert!(check_frame_size(Size { width: 4, height: 2 }, &Frame::new(2, 4)).is_err());
}

#[test]
fn transparency_is_rejected_until_alpha_support_lands() {
    let mut cfg = config("alpha.webm", OutputFormat::WebM);
    cfg.transparent = true;
    assert!(ffmpeg_begin(&cfg, false).is_err());
}

#[test]
fn an_ffmpeg_encode_owns_only_a_file_it_created() {
    let mut cfg = config("video.webm", OutputFormat::WebM);
    assert_eq!(ffmpeg_begin(&cfg, false), Ok(true));
    assert_eq!(ffmpeg_begin(&cfg, true), Ok(false));
    cfg.overwrite = false;
    assert_eq!(
        ffmpeg_begin(&cfg, true),
        Err(EncodeError::OutputExists { path: "video.webm".to_string() })
    );
}

#[test]
fn a_failing_ffmpeg_surfaces_its_stderr() {
    let err = exit_failure("exit status: 1", "Error opening output file: No such file or directory");
    let message = err.message();
    assert!(message.contains("No such file or directory"), "got: {message}");
    assert_eq!(
        message,
        "ffmpeg: ffmpeg exited with exit status: 1:\nError opening output file: No such file or directory"
    );
    assert_eq!(
        early_close_failure().message(),
        "ffmpeg: ffmpeg's stdin pipe closed unexpectedly, but it exited successfully"
    );
}

#[test]
fn every_encode_diagnostic_carries_the_scenario_file() {
    let file = "scene.yaml";
    let output_exists = to_diagnostic(
        PipelineError::Encode(EncodeError::OutputExists { path: "out.webm".to_string() }),
        file,
    );
    assert_eq!(output_exists.file.as_deref(), Some(file));
    assert_eq!(output_exists.message, "`out.webm` already exists");
    assert_eq!(output_exists.hint.as_deref(), Some("Pass --overwrite to replace it."));
    assert_eq!(output_exists.exit_code(), 1);
    let other = to_diagnostic(PipelineError::Encode(EncodeError::Ffmpeg("boom".to_string())), file);
    assert_eq!(other.file.as_deref(), Some(file));
    assert_eq!(other.message, "ffmpeg: boom");
    assert_eq!(other.code, codes::ENCODER_FAILED);
}

#[test]
fn font_failures_become_font_diagnostics_with_hints() {
    let missing = to_diagnostic(
        PipelineError::Render(RenderError::Font(FontError::FamilyNotFound {
            family: "Nope".to_string(),
        })),
        "s.yaml",
    );
    assert_eq!(missing.code, codes::FONT_NOT_FOUND);
    assert_eq!(missing.message, "font \"Nope\" not found");
    assert_eq!(missing.path.as_deref(), Some("font.family"));
    assert!(missing.hint.as_deref().unwrap().contains("font.path"));
    let invalid = to_diagnostic(
        PipelineError::Render(RenderError::Font(FontError::FileInvalid {
            path: "f.ttf".to_string(),
        })),
        "s.yaml",
    );
    assert_eq!(invalid.message, "font file `f.ttf` could not be parsed");
    assert_eq!(invalid.path.as_deref(), Some("font.path"));
    assert_eq!(invalid.exit_code(), 5);
    let size = to_diagnostic(
        PipelineError::Render(RenderError::SizeMismatch {
            expected: Size { width: 4, height: 2 },
            got: Size { width: 1, height: 1 },
        }),
        "s.yaml",
    );
    assert_eq!(size.code, codes::RENDER_FAILED);
    assert_eq!(
        size.message,
        "frame is Size { width: 1, height: 1 } but the renderer is configured for Size { width: 4, height: 2 }"
    );
}

#[test]
fn a_compile_failure_keeps_its_diagnostic() {
    let d = Diagnostic::error(codes::OVERFLOW_ERROR_MODE, "overflow");
    let out = to_diagnostic(PipelineError::Compile(d), "scene.yaml");
    assert_eq!(out.code, codes::OVERFLOW_ERROR_MODE);
    assert_eq!(out.file.as_deref(), Some("scene.yaml"));
}

#[test]
fn an_empty_scenario_still_renders_one_frame() {
    assert_eq!(frame_total(Fps::from_integer(30), Time::zero()), 1);
    assert_eq!(frame_total(Fps::from_integer(30), Time::from_millis(1_000)), 30);
}
