//! The render pipeline's own decisions: how many frames a render has, what can
//! fail once a scenario has loaded, and how each failure is reported.
use crate::codes;
use crate::diag::{code_of, error_view, DiagView, Diagnostic};
use crate::encode::{encode_message, size_text, append_size, EncodeError};
use crate::geom::Size;
use crate::resolve::Overrides;
use crate::time::{frame_count_spec, Fps, Time};
use vstd::prelude::*;

verus! {

/// A scenario with no timeline still renders one frame (its initial, blank
/// state) rather than nothing.
pub const MINIMUM_FRAMES: u64 = 1;

/// What a font could not provide.
#[derive(Debug, Clone, PartialEq, Eq)]
pub enum FontError {
    FamilyNotFound { family: String },
    /// Reading `path` failed; `message` is the operating system's account of why.
    FileNotReadable { path: String, message: String },
    FileInvalid { path: String },
}

/// Where the face that renders a scenario comes from.
#[derive(Debug, Clone, PartialEq, Eq)]
pub enum FontSource {
    Embedded,
    File(String),
    System(String),
}

/// An 8-bit coverage mask for one grapheme cluster, positioned relative to the
/// pen: `left` to the right of it, `top` above the baseline.
#[derive(Debug, Clone, PartialEq, Eq)]
pub struct GlyphMask {
    pub width: u32,
    pub height: u32,
    pub left: i32,
    pub top: i32,
    pub alpha: Vec<u8>,
}

/// What rendering a frame can fail with.
#[derive(Debug, Clone, PartialEq, Eq)]
pub enum RenderError {
    Font(FontError),
    SizeMismatch { expected: Size, got: Size },
}

pub open spec fn font_message(e: FontError) -> Seq<char> {
    match e {
        FontError::FamilyNotFound { family } => "font family `"@ + family@ + "` not found"@,
        FontError::FileNotReadable { path, message } => "cannot read font file `"@ + path@
            + "`: "@ + message@,
        FontError::FileInvalid { path } => "font file `"@ + path@ + "` could not be parsed"@,
    }
}

pub open spec fn render_message(e: RenderError) -> Seq<char> {
    match e {
        RenderError::Font(f) => font_message(f),
        RenderError::SizeMismatch { expected, got } => "frame is "@ + size_text(got)
            + " but the renderer is configured for "@ + size_text(expected),
    }
}

impl FontError {
    /// The error as a sentence, the way it is reported.
    pub fn message(&self) -> (m: String)
        ensures
            m@ == font_message(*self),
    {
        match self {
            FontError::FamilyNotFound { family } => {
                let mut m = String::from_str("font family `");
                m.append(family.as_str());
                m.append("` not found");
                proof {
                    reveal_strlit("font family `");
                    reveal_strlit("` not found");
                    assert(m@ =~= font_message(*self));
                }
                m
            },
            FontError::FileNotReadable { path, message } => {
                let mut m = String::from_str("cannot read font file `");
                m.append(path.as_str());
                m.append("`: ");
                m.append(message.as_str());
                proof {
                    reveal_strlit("cannot read font file `");
                    reveal_strlit("`: ");
                    assert(m@ =~= font_message(*self));
                }
                m
            },
            FontError::FileInvalid { path } => {
                let mut m = String::from_str("font file `");
                m.append(path.as_str());
                m.append("` could not be parsed");
                proof {
                    reveal_strlit("font file `");
                    reveal_strlit("` could not be parsed");
                    assert(m@ =~= font_message(*self));
                }
                m
            },
        }
    }
}

impl RenderError {
    /// The error as a sentence, the way it is reported.
    pub fn message(&self) -> (m: String)
        ensures
            m@ == render_message(*self),
    {
        match self {
            RenderError::Font(f) => f.message(),
            RenderError::SizeMismatch { expected, got } => {
                let mut m = String::from_str("frame is ");
                append_size(&mut m, *got);
                m.append(" but the renderer is configured for ");
                append_size(&mut m, *expected);
                proof {
                    reveal_strlit("frame is ");
                    reveal_strlit(" but the renderer is configured for ");
                    assert(m@ =~= render_message(*self));
                }
                m
            },
        }
    }
}

/// Frame count and total duration of a completed render.
#[derive(Debug, Clone, Copy, PartialEq, Eq, Structural)]
pub struct RenderSummary {
    pub frames: u64,
    pub duration: Time,
}

/// Everything that can go wrong once a scenario has loaded and resolved: one
/// variant per stage of the pipeline, so each maps to its own diagnostic and
/// exit code.
#[derive(Debug, PartialEq, Eq)]
pub enum PipelineError {
    Compile(Diagnostic),
    Render(RenderError),
    Encode(EncodeError),
}

/// What `termotion render` was asked to do.
#[derive(Debug, Clone, PartialEq, Eq)]
pub struct RenderArgs {
    pub file: String,
    pub overrides: Overrides,
    pub quiet: bool,
}

pub open spec fn frame_total_spec(fps: Fps, duration: Time) -> u64 {
    let n = frame_count_spec(fps, duration);
    if n < MINIMUM_FRAMES {
        MINIMUM_FRAMES
    } else {
        n
    }
}

/// How many frames a render of `duration` at `fps` writes: every frame the
/// duration covers, and at least one.
pub fn frame_total(fps: Fps, duration: Time) -> (n: u64)
    ensures
        n == frame_total_spec(fps, duration),
        n >= 1,
{
    let n = fps.frame_count(duration);
    if n < MINIMUM_FRAMES {
        MINIMUM_FRAMES
    } else {
        n
    }
}

pub open spec fn font_not_found_hint() -> Seq<char> {
    "Install the font or set font.path:\n\nfont:\n  path: ./assets/fonts/font.ttf"@
}

pub open spec fn font_file_hint() -> Seq<char> {
    "Check that the path is correct and the file is a valid TTF or OTF."@
}

/// The diagnostic each pipeline failure is reported as, attributed to the
/// scenario `file`.
pub open spec fn pipeline_diagnostic(error: PipelineError, file: Seq<char>) -> DiagView {
    match error {
        PipelineError::Compile(d) => DiagView { file: Some(file), ..d@ },
        PipelineError::Render(RenderError::Font(FontError::FamilyNotFound { family })) => DiagView {
            path: Some("font.family"@),
            file: Some(file),
            hint: Some(font_not_found_hint()),
            ..error_view(code_of(codes::FONT_NOT_FOUND), "font \""@ + family@ + "\" not found"@)
        },
        PipelineError::Render(RenderError::Font(other)) => DiagView {
            path: Some("font.path"@),
            file: Some(file),
            hint: Some(font_file_hint()),
            ..error_view(code_of(codes::FONT_NOT_FOUND), font_message(other))
        },
        PipelineError::Render(other) => DiagView {
            file: Some(file),
            ..error_view(code_of(codes::RENDER_FAILED), render_message(other))
        },
        PipelineError::Encode(EncodeError::OutputExists { path }) => DiagView {
            file: Some(file),
            hint: Some("Pass --overwrite to replace it."@),
            ..error_view(code_of(codes::OUTPUT_EXISTS), "`"@ + path@ + "` already exists"@)
        },
        PipelineError::Encode(other) => DiagView {
            file: Some(file),
            ..error_view(code_of(codes::ENCODER_FAILED), encode_message(other))
        },
    }
}

/// Translates a pipeline failure into the diagnostic the user sees: font
/// problems get their own code, path and hint, an existing output gets the
/// `--overwrite` hint, and every diagnostic names the scenario file.
pub fn to_diagnostic(error: PipelineError, file: &str) -> (d: Diagnostic)
    ensures
        d@ == pipeline_diagnostic(error, file@),
{
    match error {
        PipelineError::Compile(diagnostic) => diagnostic.in_file(file),
        PipelineError::Render(RenderError::Font(FontError::FamilyNotFound { family })) => {
            let mut m = String::from_str("font \"");
            m.append(family.as_str());
            m.append("\" not found");
            proof {
                reveal_strlit("font \"");
                reveal_strlit("\" not found");
                reveal_strlit("font.family");
                reveal_strlit(
                    "Install the font or set font.path:\n\nfont:\n  path: ./assets/fonts/font.ttf",
                );
                assert(m@ =~= "font \""@ + family@ + "\" not found"@);
            }
            Diagnostic::error(codes::FONT_NOT_FOUND, m.as_str()).at_path("font.family").in_file(
                file,
            ).with_hint(
                "Install the font or set font.path:\n\nfont:\n  path: ./assets/fonts/font.ttf",
            )
        },
        PipelineError::Render(RenderError::Font(other)) => {
            let m = other.message();
            proof {
                reveal_strlit("font.path");
                reveal_strlit("Check that the path is correct and the file is a valid TTF or OTF.");
            }
            Diagnostic::error(codes::FONT_NOT_FOUND, m.as_str()).at_path("font.path").in_file(
                file,
            ).with_hint("Check that the path is correct and the file is a valid TTF or OTF.")
        },
        PipelineError::Render(other) => {
            let m = other.message();
            Diagnostic::error(codes::RENDER_FAILED, m.as_str()).in_file(file)
        },
        PipelineError::Encode(EncodeError::OutputExists { path }) => {
            let mut m = String::from_str("`");
            m.append(path.as_str());
            m.append("` already exists");
            proof {
                reveal_strlit("`");
                reveal_strlit("` already exists");
                reveal_strlit("Pass --overwrite to replace it.");
                assert(m@ =~= "`"@ + path@ + "` already exists"@);
            }
            Diagnostic::error(codes::OUTPUT_EXISTS, m.as_str()).in_file(file).with_hint(
                "Pass --overwrite to replace it.",
            )
        },
        PipelineError::Encode(other) => {
            let m = other.message();
            Diagnostic::error(codes::ENCODER_FAILED, m.as_str()).in_file(file)
        },
    }
}

/// Every pipeline failure is reported against the scenario file it came from,
/// and each stage exits with its own documented code: a font problem 5, any
/// other render failure 6, an existing output 1, any other encode failure 7; a
/// compile failure keeps its own code.
pub proof fn lemma_pipeline_diagnostics(error: PipelineError, file: Seq<char>)
    ensures
        pipeline_diagnostic(error, file).file == Some(file),
        pipeline_diagnostic(error, file).code.1 == match error {
            PipelineError::Compile(d) => d.code.1,
            PipelineError::Render(RenderError::Font(_)) => 5,
            PipelineError::Render(_) => 6,
            PipelineError::Encode(EncodeError::OutputExists { .. }) => 1,
            PipelineError::Encode(_) => 7,
        },
{
}

} // verus!
