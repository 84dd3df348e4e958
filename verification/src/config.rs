//! Resolved configuration records: canvas, terminal, font, prompt, cursor,
//! playback, output and palette.
use crate::color::Color;
use crate::geom::{inset_fits, inset_rect, Padding, Rect, Size};
use crate::grid::Overflow;
use crate::style::{default_style, TextStyle};
use crate::terminal::{default_cursor_blink, CursorStyle};
use crate::time::{Fps, Time};
use vstd::prelude::*;

verus! {

/// Default canvas width in pixels (the reference 1080p canvas).
pub const DEFAULT_CANVAS_WIDTH: u32 = 1920;

/// Default canvas height in pixels.
pub const DEFAULT_CANVAS_HEIGHT: u32 = 1080;

/// Default frame rate.
pub const DEFAULT_FPS: u32 = 30;

/// Maximum allowed canvas width or height, in pixels: twice the longer edge of
/// 8K, which bounds the frame buffer to about 1 GiB.
pub const MAX_CANVAS_DIMENSION: u32 = 16_384;

/// Default gap, in pixels, between the canvas edge and the terminal region.
pub const DEFAULT_TERMINAL_MARGIN: u32 = 110;

/// Default font size (40.0 px) as IEEE-754 single-precision bits.
pub const DEFAULT_FONT_SIZE_BITS: u32 = 0x4220_0000;

/// Default line height (1.4 x font size) as IEEE-754 single-precision bits.
pub const DEFAULT_LINE_HEIGHT_BITS: u32 = 0x3FB3_3333;

/// Default font weight (CSS-style 100-900 scale).
pub const DEFAULT_FONT_WEIGHT: u16 = 400;

/// Default CRF-style quality for VP9/H.264 encoding.
pub const DEFAULT_QUALITY: u8 = 32;

/// Highest valid `-crf` value for `libvpx-vp9`.
pub const MAX_QUALITY_VP9: u8 = 63;

/// Highest valid `-crf` value for `libx264`.
pub const MAX_QUALITY_H264: u8 = 51;

/// Only `Solid` exists; image and gradient backgrounds are a future addition.
#[derive(Debug, Clone, Copy, PartialEq, Eq, Structural)]
pub enum BackgroundConfig {
    Solid(Color),
}

#[derive(Debug, Clone, Copy, PartialEq, Eq)]
pub struct CanvasConfig {
    pub size: Size,
    pub fps: Fps,
    pub background: BackgroundConfig,
    pub transparent: bool,
}

impl Default for CanvasConfig {
    fn default() -> (c: CanvasConfig)
        ensures
            c.size == (Size { width: 1920, height: 1080 }),
            c.fps.num_spec() == 30 && c.fps.den_spec() == 1,
            c.background == BackgroundConfig::Solid(Color { r: 8, g: 11, b: 9, a: 255 }),
            !c.transparent,
    {
        CanvasConfig {
            size: Size { width: DEFAULT_CANVAS_WIDTH, height: DEFAULT_CANVAS_HEIGHT },
            fps: Fps::from_integer(DEFAULT_FPS),
            background: BackgroundConfig::Solid(Color::rgb(8, 11, 9)),
            transparent: false,
        }
    }
}

#[derive(Debug, Clone, Copy, PartialEq, Eq, Structural)]
pub struct TerminalConfig {
    pub bounds: Rect,
    pub padding: Padding,
    pub overflow: Overflow,
}

pub open spec fn default_terminal() -> TerminalConfig {
    TerminalConfig {
        bounds: Rect { x: 110, y: 110, width: 1700, height: 860 },
        padding: Padding { top: 0, right: 0, bottom: 0, left: 0 },
        overflow: Overflow::Scroll,
    }
}

impl Default for TerminalConfig {
    fn default() -> (t: TerminalConfig)
        ensures
            t == default_terminal(),
    {
        TerminalConfig {
            bounds: Rect {
                x: DEFAULT_TERMINAL_MARGIN as i32,
                y: DEFAULT_TERMINAL_MARGIN as i32,
                width: DEFAULT_CANVAS_WIDTH - 2 * DEFAULT_TERMINAL_MARGIN,
                height: DEFAULT_CANVAS_HEIGHT - 2 * DEFAULT_TERMINAL_MARGIN,
            },
            padding: Padding::uniform(0),
            overflow: Overflow::Scroll,
        }
    }
}

/// Font settings. Sizes are IEEE-754 single-precision values held as their bit
/// patterns (`f32::to_bits`); the renderer reads them back with `f32::from_bits`.
#[derive(Debug, Clone, PartialEq, Eq)]
pub struct FontConfig {
    pub family: String,
    /// An explicit font file, which takes precedence over `family`.
    pub path: Option<String>,
    pub size_bits: u32,
    pub weight: u16,
    pub line_height_bits: u32,
    pub letter_spacing_bits: u32,
}

impl Default for FontConfig {
    fn default() -> (f: FontConfig)
        ensures
            f.family@ == "JetBrains Mono"@,
            f.path is None,
            f.size_bits == DEFAULT_FONT_SIZE_BITS,
            f.weight == DEFAULT_FONT_WEIGHT,
            f.line_height_bits == DEFAULT_LINE_HEIGHT_BITS,
            f.letter_spacing_bits == 0,
    {
        FontConfig {
            family: String::from_str("JetBrains Mono"),
            path: None,
            size_bits: DEFAULT_FONT_SIZE_BITS,
            weight: DEFAULT_FONT_WEIGHT,
            line_height_bits: DEFAULT_LINE_HEIGHT_BITS,
            letter_spacing_bits: 0,
        }
    }
}

/// `x <= 0.0` for the single-precision value with bit pattern `bits`: true for
/// zeros and negatives (infinity included), false for positives and NaN.
pub open spec fn f32_bits_not_positive(bits: u32) -> bool {
    let is_nan = (bits & 0x7F80_0000) == 0x7F80_0000 && (bits & 0x007F_FFFF) != 0;
    !is_nan && ((bits & 0x8000_0000) != 0 || bits == 0)
}

/// `f32::from_bits(bits) <= 0.0`.
pub fn f32_bits_le_zero(bits: u32) -> (r: bool)
    ensures
        r == f32_bits_not_positive(bits),
{
    let is_nan = (bits & 0x7F80_0000) == 0x7F80_0000 && (bits & 0x007F_FFFF) != 0;
    !is_nan && ((bits & 0x8000_0000) != 0 || bits == 0)
}

#[derive(Debug, Clone, PartialEq, Eq)]
pub struct PromptConfig {
    pub user: String,
    pub host: String,
    pub path: String,
    pub symbol: String,
}

impl Default for PromptConfig {
    fn default() -> (p: PromptConfig)
        ensures
            p.user@ == "user"@,
            p.host@ == "localhost"@,
            p.path@ == "~"@,
            p.symbol@ == "$"@,
    {
        PromptConfig {
            user: String::from_str("user"),
            host: String::from_str("localhost"),
            path: String::from_str("~"),
            symbol: String::from_str("$"),
        }
    }
}

pub open spec fn fg_style(fg: Color) -> TextStyle {
    TextStyle { fg, ..default_style() }
}

/// `user@host:path$ ` as palette-colored segments; the separators take the
/// color of the segment before them.
pub open spec fn prompt_spans(p: PromptConfig, palette: Palette) -> Seq<(Seq<char>, TextStyle)> {
    seq![
        (p.user@, fg_style(palette.prompt_user)),
        ("@"@, fg_style(palette.prompt_user)),
        (p.host@, fg_style(palette.prompt_host)),
        (":"@, fg_style(palette.prompt_host)),
        (p.path@, fg_style(palette.prompt_path)),
        (p.symbol@ + " "@, fg_style(palette.prompt_symbol)),
    ]
}

pub open spec fn styled_view(v: Seq<(String, TextStyle)>) -> Seq<(Seq<char>, TextStyle)> {
    Seq::new(v.len(), |i: int| (v[i].0@, v[i].1))
}

fn fg(c: Color) -> (s: TextStyle)
    ensures
        s == fg_style(c),
{
    TextStyle { fg: c, ..TextStyle::default() }
}

impl PromptConfig {
    /// Renders `user@host:path$ ` as palette-colored spans.
    pub fn spans(&self, palette: &Palette) -> (v: Vec<(String, TextStyle)>)
        ensures
            styled_view(v@) == prompt_spans(*self, *palette),
    {
        proof {
            reveal_strlit("@");
            reveal_strlit(":");
            reveal_strlit(" ");
        }
        let mut symbol = self.symbol.clone();
        symbol.append(" ");
        let mut v: Vec<(String, TextStyle)> = Vec::new();
        v.push((self.user.clone(), fg(palette.prompt_user)));
        v.push((String::from_str("@"), fg(palette.prompt_user)));
        v.push((self.host.clone(), fg(palette.prompt_host)));
        v.push((String::from_str(":"), fg(palette.prompt_host)));
        v.push((self.path.clone(), fg(palette.prompt_path)));
        v.push((symbol, fg(palette.prompt_symbol)));
        proof {
            assert(styled_view(v@) =~= prompt_spans(*self, *palette));
        }
        v
    }
}

#[derive(Debug, Clone, Copy, PartialEq, Eq, Structural)]
pub struct CursorConfig {
    pub style: CursorStyle,
    pub blink: Option<Time>,
    pub visible: bool,
}

impl Default for CursorConfig {
    fn default() -> (c: CursorConfig)
        ensures
            c == (CursorConfig {
                style: CursorStyle::Block,
                blink: Some(Time(500_000_000)),
                visible: true,
            }),
    {
        CursorConfig { style: CursorStyle::Block, blink: Some(default_cursor_blink()), visible: true }
    }
}

#[derive(Debug, Clone, Copy, PartialEq, Eq, Default, Structural)]
pub struct PlaybackConfig {
    pub looping: bool,
    pub loop_delay: Time,
}

#[derive(Debug, Clone, Copy, PartialEq, Eq, Structural)]
pub enum OutputFormat {
    WebM,
    Mp4,
    Gif,
    Png,
}

pub open spec fn format_name(f: OutputFormat) -> Seq<char> {
    match f {
        OutputFormat::WebM => "webm"@,
        OutputFormat::Mp4 => "mp4"@,
        OutputFormat::Gif => "gif"@,
        OutputFormat::Png => "png"@,
    }
}

impl OutputFormat {
    /// H.264 requires even width and height; this is validated before rendering.
    pub fn requires_even_dimensions(self) -> (b: bool)
        ensures
            b == (self == OutputFormat::Mp4),
    {
        match self {
            OutputFormat::Mp4 => true,
            _ => false,
        }
    }

    pub fn as_str(self) -> (s: &'static str)
        ensures
            s@ == format_name(self),
    {
        proof {
            reveal_strlit("webm");
            reveal_strlit("mp4");
            reveal_strlit("gif");
            reveal_strlit("png");
        }
        match self {
            OutputFormat::WebM => "webm",
            OutputFormat::Mp4 => "mp4",
            OutputFormat::Gif => "gif",
            OutputFormat::Png => "png",
        }
    }
}

#[derive(Debug, Clone, Copy, PartialEq, Eq, Structural)]
pub enum Codec {
    Vp9,
    H264,
}

#[derive(Debug, Clone, PartialEq, Eq)]
pub struct OutputConfig {
    pub format: OutputFormat,
    pub codec: Option<Codec>,
    pub path: String,
    pub size: Size,
    pub fps: Fps,
    pub transparent: bool,
    /// CRF for VP9/H.264. Lower is higher quality.
    pub quality: u8,
    pub overwrite: bool,
}

/// Fully resolved theme colors.
#[derive(Debug, Clone, Copy, PartialEq, Eq, Structural)]
pub struct Palette {
    pub background: Color,
    pub foreground: Color,
    pub prompt_user: Color,
    pub prompt_host: Color,
    pub prompt_path: Color,
    pub prompt_symbol: Color,
    pub command: Color,
    pub cursor: Color,
    pub success: Color,
    pub warning: Color,
    pub error: Color,
    pub muted: Color,
}

pub open spec fn rgb(r: u8, g: u8, b: u8) -> Color {
    Color { r, g, b, a: 255 }
}

/// The `zombocoder` reference palette.
pub open spec fn default_palette() -> Palette {
    Palette {
        background: rgb(0x08, 0x0B, 0x09),
        foreground: rgb(0xC8, 0xE6, 0xC9),
        prompt_user: rgb(0x39, 0xFF, 0x14),
        prompt_host: rgb(0x69, 0xD2, 0xFF),
        prompt_path: rgb(0xA7, 0xB0, 0xA7),
        prompt_symbol: rgb(0x39, 0xFF, 0x14),
        command: rgb(0xFF, 0xFF, 0xFF),
        cursor: rgb(0x39, 0xFF, 0x14),
        success: rgb(0x39, 0xFF, 0x14),
        warning: rgb(0xF1, 0xC4, 0x0F),
        error: rgb(0xFF, 0x4D, 0x4D),
        muted: rgb(0x66, 0x72, 0x66),
    }
}

impl Default for Palette {
    /// The `zombocoder` reference palette.
    fn default() -> (p: Palette)
        ensures
            p == default_palette(),
    {
        Palette {
            background: Color::rgb(0x08, 0x0B, 0x09),
            foreground: Color::rgb(0xC8, 0xE6, 0xC9),
            prompt_user: Color::rgb(0x39, 0xFF, 0x14),
            prompt_host: Color::rgb(0x69, 0xD2, 0xFF),
            prompt_path: Color::rgb(0xA7, 0xB0, 0xA7),
            prompt_symbol: Color::rgb(0x39, 0xFF, 0x14),
            command: Color::rgb(0xFF, 0xFF, 0xFF),
            cursor: Color::rgb(0x39, 0xFF, 0x14),
            success: Color::rgb(0x39, 0xFF, 0x14),
            warning: Color::rgb(0xF1, 0xC4, 0x0F),
            error: Color::rgb(0xFF, 0x4D, 0x4D),
            muted: Color::rgb(0x66, 0x72, 0x66),
        }
    }
}

/// Terminal grid dimensions in cells.
#[derive(Debug, Clone, Copy, PartialEq, Eq, Structural)]
pub struct GridSpec {
    pub cols: u16,
    pub rows: u16,
}

/// `max(n / d, 1)`, clamped to `u16::MAX`.
pub open spec fn cells_fitting(n: int, d: int) -> u16 {
    let q = if n / d >= 1 {
        n / d
    } else {
        1
    };
    if q > u16::MAX {
        u16::MAX
    } else {
        q as u16
    }
}

pub open spec fn grid_from_metrics(advance_w: u32, line_h: u32, t: TerminalConfig) -> GridSpec {
    let inner = inset_rect(t.bounds, t.padding);
    GridSpec {
        cols: cells_fitting(inner.width as int, advance_w as int),
        rows: cells_fitting(inner.height as int, line_h as int),
    }
}

fn fit_cells(n: u32, d: u32) -> (r: u16)
    requires
        d > 0,
    ensures
        r == cells_fitting(n as int, d as int),
{
    let q = n / d;
    let q = if q >= 1 {
        q
    } else {
        1
    };
    if q > 65535 {
        65535
    } else {
        q as u16
    }
}

impl GridSpec {
    /// The grid that cells of `advance_w` x `line_h` pixels fill inside the
    /// terminal's padded region: at least one cell each way.
    pub fn from_metrics(advance_w: u32, line_h: u32, terminal: &TerminalConfig) -> (g: GridSpec)
        requires
            advance_w > 0,
            line_h > 0,
            inset_fits(terminal.bounds, terminal.padding),
        ensures
            g == grid_from_metrics(advance_w, line_h, *terminal),
    {
        let inner = terminal.bounds.inset(terminal.padding);
        GridSpec { cols: fit_cells(inner.width, advance_w), rows: fit_cells(inner.height, line_h) }
    }
}

/// A frame rate as its (numerator, denominator) pair.
pub open spec fn fps_pair(f: Fps) -> (u32, u32) {
    (f.num_spec(), f.den_spec())
}

/// Canvas settings as a value.
pub struct CanvasView {
    pub size: Size,
    pub fps: (u32, u32),
    pub background: BackgroundConfig,
    pub transparent: bool,
}

impl View for CanvasConfig {
    type V = CanvasView;

    open spec fn view(&self) -> CanvasView {
        CanvasView {
            size: self.size,
            fps: fps_pair(self.fps),
            background: self.background,
            transparent: self.transparent,
        }
    }
}

/// Font settings as a value.
pub struct FontView {
    pub family: Seq<char>,
    pub path: Option<Seq<char>>,
    pub size_bits: u32,
    pub weight: u16,
    pub line_height_bits: u32,
    pub letter_spacing_bits: u32,
}

impl View for FontConfig {
    type V = FontView;

    open spec fn view(&self) -> FontView {
        FontView {
            family: self.family@,
            path: match self.path {
                Some(p) => Some(p@),
                None => None,
            },
            size_bits: self.size_bits,
            weight: self.weight,
            line_height_bits: self.line_height_bits,
            letter_spacing_bits: self.letter_spacing_bits,
        }
    }
}

/// Prompt texts as a value.
pub struct PromptView {
    pub user: Seq<char>,
    pub host: Seq<char>,
    pub path: Seq<char>,
    pub symbol: Seq<char>,
}

impl View for PromptConfig {
    type V = PromptView;

    open spec fn view(&self) -> PromptView {
        PromptView { user: self.user@, host: self.host@, path: self.path@, symbol: self.symbol@ }
    }
}

/// Output settings as a value.
pub struct OutputView {
    pub format: OutputFormat,
    pub codec: Option<Codec>,
    pub path: Seq<char>,
    pub size: Size,
    pub fps: (u32, u32),
    pub transparent: bool,
    pub quality: u8,
    pub overwrite: bool,
}

impl View for OutputConfig {
    type V = OutputView;

    open spec fn view(&self) -> OutputView {
        OutputView {
            format: self.format,
            codec: self.codec,
            path: self.path@,
            size: self.size,
            fps: fps_pair(self.fps),
            transparent: self.transparent,
            quality: self.quality,
            overwrite: self.overwrite,
        }
    }
}

} // verus!
