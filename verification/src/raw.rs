//! The scenario exactly as written, before defaults, validation and resolution.
//! Every field is optional where the document may leave it out.
use crate::time::{DurationParseError, Time};
use vstd::prelude::*;

verus! {

/// What the document reader made of a duration text.
#[derive(Debug, Clone, PartialEq, Eq)]
pub enum DurationReading {
    /// The text is a duration of this length.
    Read(Time),
    /// The text is not a duration, for this reason.
    Unreadable(DurationParseError),
}

/// A duration field as written, together with what the document reader read it
/// as.
#[derive(Debug, Clone, PartialEq, Eq)]
pub struct RawDuration {
    pub text: String,
    pub reading: DurationReading,
}

/// The only scenario schema version this build understands.
pub const SUPPORTED_VERSION: u32 = 1;

#[derive(Debug, Clone, PartialEq, Eq)]
pub struct RawScenario {
    pub version: u32,
    pub metadata: Option<RawMetadata>,
    pub includes: Vec<String>,
    /// `variables:` entries in key order.
    pub variables: Vec<(String, String)>,
    pub canvas: Option<RawCanvas>,
    pub theme: Option<RawThemeRef>,
    pub terminal: Option<RawTerminal>,
    pub font: Option<RawFont>,
    pub prompt: Option<RawPrompt>,
    pub cursor: Option<RawCursor>,
    pub playback: Option<RawPlayback>,
    pub output: Option<RawOutput>,
    pub random: Option<RawRandom>,
    pub timeline: Vec<RawAction>,
}

#[derive(Debug, Clone, PartialEq, Eq, Default)]
pub struct RawMetadata {
    pub name: Option<String>,
    pub description: Option<String>,
}

#[derive(Debug, Clone, PartialEq, Eq, Default)]
pub struct RawCanvas {
    pub width: Option<u32>,
    pub height: Option<u32>,
    pub fps: Option<u32>,
    pub background: Option<String>,
    pub transparent: Option<bool>,
}

/// `theme: name` or `theme: { ref: name }`.
#[derive(Debug, Clone, PartialEq, Eq)]
pub enum RawThemeRef {
    Named(String),
    Ref { reference: String },
}

#[derive(Debug, Clone, PartialEq, Eq, Default)]
pub struct RawTerminal {
    pub x: Option<i32>,
    pub y: Option<i32>,
    pub width: Option<u32>,
    pub height: Option<u32>,
    pub padding: Option<RawPadding>,
    pub overflow: Option<String>,
}

#[derive(Debug, Clone, Copy, PartialEq, Eq, Default, Structural)]
pub struct RawPadding {
    pub top: Option<u32>,
    pub right: Option<u32>,
    pub bottom: Option<u32>,
    pub left: Option<u32>,
}

/// Font settings as written. Sizes are IEEE-754 single-precision values held as
/// their bit patterns.
#[derive(Debug, Clone, PartialEq, Eq, Default)]
pub struct RawFont {
    pub family: Option<String>,
    pub path: Option<String>,
    pub size_bits: Option<u32>,
    pub weight: Option<u16>,
    pub line_height_bits: Option<u32>,
    pub letter_spacing_bits: Option<u32>,
}

#[derive(Debug, Clone, PartialEq, Eq, Default)]
pub struct RawPrompt {
    pub user: Option<String>,
    pub host: Option<String>,
    pub path: Option<String>,
    pub symbol: Option<String>,
}

#[derive(Debug, Clone, PartialEq, Eq, Default)]
pub struct RawCursor {
    pub style: Option<String>,
    pub blink: Option<RawDuration>,
    pub visible: Option<bool>,
}

#[derive(Debug, Clone, PartialEq, Eq, Default)]
pub struct RawPlayback {
    pub looping: Option<bool>,
    pub loop_delay: Option<RawDuration>,
}

#[derive(Debug, Clone, PartialEq, Eq, Default)]
pub struct RawOutput {
    pub format: Option<String>,
    pub codec: Option<String>,
    pub quality: Option<u8>,
    pub path: Option<String>,
}

#[derive(Debug, Clone, Copy, PartialEq, Eq, Default, Structural)]
pub struct RawRandom {
    pub seed: Option<u64>,
}

#[derive(Debug, Clone, PartialEq, Eq)]
pub struct RawSpan {
    pub text: String,
    pub color: Option<String>,
}

/// Timeline actions as written.
#[derive(Debug, Clone, PartialEq, Eq)]
pub enum RawAction {
    Write { text: Option<String>, spans: Option<Vec<RawSpan>>, speed: Option<RawDuration> },
    WriteLine { text: Option<String>, spans: Option<Vec<RawSpan>>, speed: Option<RawDuration> },
    Command { text: String, speed: Option<RawDuration>, enter_delay: Option<RawDuration> },
    Pause { duration: RawDuration },
    PauseRandom { min: RawDuration, max: RawDuration, seed: Option<u64> },
    Newline { count: Option<u32> },
    Clear { effect: Option<String> },
    Backspace { count: Option<u32>, speed: Option<RawDuration> },
    Cursor {
        visible: Option<bool>,
        blink: Option<RawDuration>,
        duration: Option<RawDuration>,
        style: Option<String>,
    },
    SetColor { foreground: Option<String>, background: Option<String> },
    ResetStyle,
}

} // verus!
