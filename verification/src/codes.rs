//! The error-code registry. Codes are stable and documented; never renumber one.
use vstd::prelude::*;

verus! {

/// `(code, exit_code)` pairs. Exit codes follow the documented exit-code table.
pub type Code = (&'static str, i32);

pub const YAML_SYNTAX: Code = ("E000", 3);

pub const UNSUPPORTED_VERSION: Code = ("E001", 4);

pub const MISSING_FIELD: Code = ("E002", 4);

pub const UNKNOWN_FIELD: Code = ("E003", 4);

pub const UNKNOWN_ACTION: Code = ("E004", 4);

pub const BAD_DURATION: Code = ("E005", 4);

pub const BAD_COLOR: Code = ("E006", 4);

pub const UNDEFINED_VARIABLE: Code = ("E007", 4);

pub const INCLUDE_CYCLE: Code = ("E008", 4);

pub const INCLUDE_NOT_FOUND: Code = ("E009", 5);

pub const INCLUDE_TOO_DEEP: Code = ("E010", 4);

pub const UNKNOWN_THEME: Code = ("E011", 4);

pub const BAD_DIMENSION: Code = ("E012", 4);

pub const ODD_DIMENSION_FOR_H264: Code = ("E013", 4);

pub const DURATION_NOT_POSITIVE: Code = ("E014", 4);

pub const TERMINAL_OUT_OF_BOUNDS: Code = ("E015", 4);

pub const OVERFLOW_ERROR_MODE: Code = ("E016", 4);

/// `output.quality` outside the encoder's valid `-crf` range.
pub const BAD_QUALITY: Code = ("E017", 4);

/// `output.path`'s filename starts with `-`, which FFmpeg would read as an option.
pub const BAD_OUTPUT_PATH: Code = ("E018", 4);

pub const FONT_NOT_FOUND: Code = ("E020", 5);

pub const OUTPUT_EXISTS: Code = ("E030", 1);

pub const FFMPEG_NOT_FOUND: Code = ("E040", 7);

pub const ENCODER_MISSING: Code = ("E041", 7);

pub const ENCODER_FAILED: Code = ("E042", 7);

/// A render failure that is not a font problem, kept apart from `ENCODER_FAILED`
/// so the two stages are distinguishable from the exit code alone.
pub const RENDER_FAILED: Code = ("E050", 6);

} // verus!
