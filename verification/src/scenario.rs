//! A scenario after resolution: includes merged, variables substituted, theme
//! flattened to a palette, durations parsed, colors concrete.
use crate::color::Color;
use crate::config::{
    CanvasConfig, CanvasView, CursorConfig, FontConfig, FontView, Palette, PlaybackConfig,
    PromptConfig, PromptView, TerminalConfig,
};
use crate::time::Time;
use vstd::prelude::*;

verus! {

#[derive(Debug, Clone, Default, PartialEq, Eq)]
pub struct Metadata {
    pub name: String,
    pub description: Option<String>,
}

#[derive(Debug, Clone, PartialEq, Eq)]
pub struct Scenario {
    pub metadata: Metadata,
    pub canvas: CanvasConfig,
    pub terminal: TerminalConfig,
    pub font: FontConfig,
    pub prompt: PromptConfig,
    pub cursor: CursorConfig,
    pub palette: Palette,
    pub playback: PlaybackConfig,
    pub seed: u64,
    pub timeline: Vec<Action>,
}

/// Timeline actions.
#[derive(Debug, Clone, PartialEq, Eq)]
pub enum Action {
    Write { spans: Vec<TextRun>, speed: Time },
    WriteLine { spans: Vec<TextRun>, speed: Time },
    Command { text: String, speed: Time, enter_delay: Time },
    Pause { duration: Time },
    PauseRandom { min: Time, max: Time },
    Newline { count: u32 },
    Clear { effect: ClearEffect },
    Backspace { count: u32, speed: Time },
    Cursor { visible: bool, blink: Option<Time>, duration: Time },
    SetColor { foreground: Option<Color>, background: Option<Color> },
    ResetStyle,
}

/// One styled run within a `write`. A plain `text:` write produces exactly one run
/// with `color: None`, meaning "use the current style".
#[derive(Debug, Clone, PartialEq, Eq)]
pub struct TextRun {
    pub text: String,
    pub color: Option<Color>,
}

#[derive(Debug, Clone, Copy, PartialEq, Eq, Default, Structural)]
pub enum ClearEffect {
    #[default]
    Instant,
    Terminal,
}

/// Runs as (text, color) pairs.
pub open spec fn runs_view(spans: Seq<TextRun>) -> Seq<(Seq<char>, Option<Color>)> {
    Seq::new(spans.len(), |i: int| (spans[i].text@, spans[i].color))
}

/// An action as a value: texts as character sequences, times in nanoseconds.
pub enum ActionView {
    Write { spans: Seq<(Seq<char>, Option<Color>)>, speed: u64 },
    WriteLine { spans: Seq<(Seq<char>, Option<Color>)>, speed: u64 },
    Command { text: Seq<char>, speed: u64, enter_delay: u64 },
    Pause { duration: u64 },
    PauseRandom { min: u64, max: u64 },
    Newline { count: u32 },
    Clear { effect: ClearEffect },
    Backspace { count: u32, speed: u64 },
    Cursor { visible: bool, blink: Option<u64>, duration: u64 },
    SetColor { foreground: Option<Color>, background: Option<Color> },
    ResetStyle,
}

pub open spec fn time_opt(t: Option<Time>) -> Option<u64> {
    match t {
        Some(t) => Some(t.0),
        None => None,
    }
}

impl View for Action {
    type V = ActionView;

    open spec fn view(&self) -> ActionView {
        match self {
            Action::Write { spans, speed } => ActionView::Write { spans: runs_view(spans@), speed: speed.0 },
            Action::WriteLine { spans, speed } => ActionView::WriteLine {
                spans: runs_view(spans@),
                speed: speed.0,
            },
            Action::Command { text, speed, enter_delay } => ActionView::Command {
                text: text@,
                speed: speed.0,
                enter_delay: enter_delay.0,
            },
            Action::Pause { duration } => ActionView::Pause { duration: duration.0 },
            Action::PauseRandom { min, max } => ActionView::PauseRandom { min: min.0, max: max.0 },
            Action::Newline { count } => ActionView::Newline { count: *count },
            Action::Clear { effect } => ActionView::Clear { effect: *effect },
            Action::Backspace { count, speed } => ActionView::Backspace { count: *count, speed: speed.0 },
            Action::Cursor { visible, blink, duration } => ActionView::Cursor {
                visible: *visible,
                blink: time_opt(*blink),
                duration: duration.0,
            },
            Action::SetColor { foreground, background } => ActionView::SetColor {
                foreground: *foreground,
                background: *background,
            },
            Action::ResetStyle => ActionView::ResetStyle,
        }
    }
}

pub open spec fn actions_view(a: Seq<Action>) -> Seq<ActionView> {
    Seq::new(a.len(), |i: int| a[i]@)
}

/// A scenario as a value.
pub struct ScenarioView {
    pub name: Seq<char>,
    pub description: Option<Seq<char>>,
    pub canvas: CanvasView,
    pub terminal: TerminalConfig,
    pub font: FontView,
    pub prompt: PromptView,
    pub cursor: CursorConfig,
    pub palette: Palette,
    pub playback: PlaybackConfig,
    pub seed: u64,
    pub timeline: Seq<ActionView>,
}

impl View for Scenario {
    type V = ScenarioView;

    open spec fn view(&self) -> ScenarioView {
        ScenarioView {
            name: self.metadata.name@,
            description: match self.metadata.description {
                Some(d) => Some(d@),
                None => None,
            },
            canvas: self.canvas@,
            terminal: self.terminal,
            font: self.font@,
            prompt: self.prompt@,
            cursor: self.cursor,
            palette: self.palette,
            playback: self.playback,
            seed: self.seed,
            timeline: actions_view(self.timeline@),
        }
    }
}

} // verus!
