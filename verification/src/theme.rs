//! Themes: the built-in palettes, and palettes read from theme files.
use crate::codes;
use crate::color::{color_error_message, parse_color, spec_parse_color, Color};
use crate::config::{default_palette, rgb, Palette};
use crate::diag::{code_of, diag_at, error_view, hinted, DiagView, Diagnostic};
use crate::text::{str_eq, trimmed};
use vstd::prelude::*;

verus! {

/// A palette built from four colors: the accent serves prompt, cursor and
/// success; warning and error keep their fixed amber and red.
pub open spec fn theme_palette(background: Color, foreground: Color, accent: Color, muted: Color) -> Palette {
    Palette {
        background,
        foreground,
        prompt_user: accent,
        prompt_host: accent,
        prompt_path: muted,
        prompt_symbol: accent,
        command: foreground,
        cursor: accent,
        success: accent,
        warning: rgb(0xFF, 0xD1, 0x66),
        error: rgb(0xFF, 0x4D, 0x4D),
        muted,
    }
}

fn make_palette(background: Color, foreground: Color, accent: Color, muted: Color) -> (p: Palette)
    ensures
        p == theme_palette(background, foreground, accent, muted),
{
    Palette {
        background,
        foreground,
        prompt_user: accent,
        prompt_host: accent,
        prompt_path: muted,
        prompt_symbol: accent,
        command: foreground,
        cursor: accent,
        success: accent,
        warning: Color::rgb(0xFF, 0xD1, 0x66),
        error: Color::rgb(0xFF, 0x4D, 0x4D),
        muted,
    }
}

/// The built-in palette named `name`, if there is one.
pub open spec fn builtin_spec(name: Seq<char>) -> Option<Palette> {
    if name == "terminal-green"@ {
        Some(theme_palette(rgb(0x05, 0x07, 0x06), rgb(0xB6, 0xF7, 0xB0), rgb(0x39, 0xFF, 0x14), rgb(0x66, 0x72, 0x66)))
    } else if name == "terminal-amber"@ {
        Some(theme_palette(rgb(0x0A, 0x07, 0x02), rgb(0xFF, 0xCC, 0x66), rgb(0xFF, 0xB0, 0x00), rgb(0x7A, 0x60, 0x30)))
    } else if name == "terminal-white"@ {
        Some(theme_palette(rgb(0x0B, 0x0B, 0x0B), rgb(0xE8, 0xE8, 0xE8), rgb(0xFF, 0xFF, 0xFF), rgb(0x8A, 0x8A, 0x8A)))
    } else if name == "matrix-green"@ {
        Some(theme_palette(rgb(0x00, 0x05, 0x00), rgb(0x66, 0xFF, 0x66), rgb(0x00, 0xFF, 0x41), rgb(0x2A, 0x6B, 0x2A)))
    } else if name == "unix-dark"@ {
        Some(theme_palette(rgb(0x10, 0x14, 0x18), rgb(0xC5, 0xCD, 0xD5), rgb(0x7A, 0xA6, 0xDA), rgb(0x5A, 0x64, 0x70)))
    } else if name == "retro-crt"@ {
        Some(theme_palette(rgb(0x02, 0x0A, 0x04), rgb(0x9C, 0xE8, 0x9C), rgb(0x33, 0xDD, 0x55), rgb(0x3E, 0x6B, 0x45)))
    } else if name == "zombocoder"@ {
        Some(default_palette())
    } else {
        None
    }
}

/// The built-in theme names, in the stable order `themes list` prints them.
pub open spec fn builtin_names() -> Seq<Seq<char>> {
    seq!["terminal-green"@, "terminal-amber"@, "terminal-white"@, "matrix-green"@, "unix-dark"@, "retro-crt"@, "zombocoder"@]
}

pub fn builtin(name: &str) -> (p: Option<Palette>)
    ensures
        p == builtin_spec(name@),
{
    if str_eq(name, "terminal-green") {
        Some(make_palette(Color::rgb(0x05, 0x07, 0x06), Color::rgb(0xB6, 0xF7, 0xB0), Color::rgb(0x39, 0xFF, 0x14), Color::rgb(0x66, 0x72, 0x66)))
    } else if str_eq(name, "terminal-amber") {
        Some(make_palette(Color::rgb(0x0A, 0x07, 0x02), Color::rgb(0xFF, 0xCC, 0x66), Color::rgb(0xFF, 0xB0, 0x00), Color::rgb(0x7A, 0x60, 0x30)))
    } else if str_eq(name, "terminal-white") {
        Some(make_palette(Color::rgb(0x0B, 0x0B, 0x0B), Color::rgb(0xE8, 0xE8, 0xE8), Color::rgb(0xFF, 0xFF, 0xFF), Color::rgb(0x8A, 0x8A, 0x8A)))
    } else if str_eq(name, "matrix-green") {
        Some(make_palette(Color::rgb(0x00, 0x05, 0x00), Color::rgb(0x66, 0xFF, 0x66), Color::rgb(0x00, 0xFF, 0x41), Color::rgb(0x2A, 0x6B, 0x2A)))
    } else if str_eq(name, "unix-dark") {
        Some(make_palette(Color::rgb(0x10, 0x14, 0x18), Color::rgb(0xC5, 0xCD, 0xD5), Color::rgb(0x7A, 0xA6, 0xDA), Color::rgb(0x5A, 0x64, 0x70)))
    } else if str_eq(name, "retro-crt") {
        Some(make_palette(Color::rgb(0x02, 0x0A, 0x04), Color::rgb(0x9C, 0xE8, 0x9C), Color::rgb(0x33, 0xDD, 0x55), Color::rgb(0x3E, 0x6B, 0x45)))
    } else if str_eq(name, "zombocoder") {
        Some(Palette::default())
    } else {
        None
    }
}

/// The built-in theme names, in a stable order.
pub fn list_builtin_names() -> (v: Vec<&'static str>)
    ensures
        v@.len() == builtin_names().len(),
        forall|i: int| 0 <= i < v@.len() ==> #[trigger] v@[i]@ == builtin_names()[i],
{
    proof {
        reveal_strlit("terminal-green");
        reveal_strlit("terminal-amber");
        reveal_strlit("terminal-white");
        reveal_strlit("matrix-green");
        reveal_strlit("unix-dark");
        reveal_strlit("retro-crt");
        reveal_strlit("zombocoder");
    }
    let mut v: Vec<&'static str> = Vec::new();
    v.push("terminal-green");
    v.push("terminal-amber");
    v.push("terminal-white");
    v.push("matrix-green");
    v.push("unix-dark");
    v.push("retro-crt");
    v.push("zombocoder");
    v
}

/// Theme files accept both the flat form (`colors:` map) and the nested form
/// (`prompt:` / `status:` sub-maps). Anything unset falls back to defaults.
#[derive(Debug, Clone, Default, PartialEq, Eq)]
pub struct RawTheme {
    pub name: Option<String>,
    pub colors: Option<RawColors>,
    pub background: Option<String>,
    pub foreground: Option<String>,
    pub cursor: Option<String>,
    pub prompt: Option<RawPromptColors>,
    pub status: Option<RawStatusColors>,
}

#[derive(Debug, Clone, Default, PartialEq, Eq)]
pub struct RawColors {
    pub background: Option<String>,
    pub foreground: Option<String>,
    pub prompt_user: Option<String>,
    pub prompt_host: Option<String>,
    pub prompt_path: Option<String>,
    pub prompt_symbol: Option<String>,
    pub command: Option<String>,
    pub cursor: Option<String>,
    pub success: Option<String>,
    pub warning: Option<String>,
    pub error: Option<String>,
    pub muted: Option<String>,
}

#[derive(Debug, Clone, Default, PartialEq, Eq)]
pub struct RawPromptColors {
    pub user: Option<String>,
    pub host: Option<String>,
    pub path: Option<String>,
    pub symbol: Option<String>,
}

#[derive(Debug, Clone, Default, PartialEq, Eq)]
pub struct RawStatusColors {
    pub success: Option<String>,
    pub pending: Option<String>,
    pub error: Option<String>,
}

/// One color of a palette.
#[derive(Debug, Clone, Copy, PartialEq, Eq, Structural)]
pub enum Slot {
    Background,
    Foreground,
    PromptUser,
    PromptHost,
    PromptPath,
    PromptSymbol,
    Command,
    Cursor,
    Success,
    Warning,
    Error,
    Muted,
}

/// `p` with the color in `slot` replaced by `c`.
pub open spec fn with_slot(p: Palette, slot: Slot, c: Color) -> Palette {
    match slot {
        Slot::Background => Palette { background: c, ..p },
        Slot::Foreground => Palette { foreground: c, ..p },
        Slot::PromptUser => Palette { prompt_user: c, ..p },
        Slot::PromptHost => Palette { prompt_host: c, ..p },
        Slot::PromptPath => Palette { prompt_path: c, ..p },
        Slot::PromptSymbol => Palette { prompt_symbol: c, ..p },
        Slot::Command => Palette { command: c, ..p },
        Slot::Cursor => Palette { cursor: c, ..p },
        Slot::Success => Palette { success: c, ..p },
        Slot::Warning => Palette { warning: c, ..p },
        Slot::Error => Palette { error: c, ..p },
        Slot::Muted => Palette { muted: c, ..p },
    }
}

fn set_slot(p: &mut Palette, slot: Slot, c: Color)
    ensures
        *final(p) == with_slot(*old(p), slot, c),
{
    match slot {
        Slot::Background => {
            p.background = c;
        },
        Slot::Foreground => {
            p.foreground = c;
        },
        Slot::PromptUser => {
            p.prompt_user = c;
        },
        Slot::PromptHost => {
            p.prompt_host = c;
        },
        Slot::PromptPath => {
            p.prompt_path = c;
        },
        Slot::PromptSymbol => {
            p.prompt_symbol = c;
        },
        Slot::Command => {
            p.command = c;
        },
        Slot::Cursor => {
            p.cursor = c;
        },
        Slot::Success => {
            p.success = c;
        },
        Slot::Warning => {
            p.warning = c;
        },
        Slot::Error => {
            p.error = c;
        },
        Slot::Muted => {
            p.muted = c;
        },
    }
}

/// One step of reading a theme: once an error has occurred nothing changes; an
/// absent value leaves the slot alone; a color sets it; anything else is a
/// `BAD_COLOR` error naming `field`.
pub open spec fn set_color_spec(r: Result<Palette, DiagView>, slot: Slot, value: Option<String>, field: Seq<char>) -> Result<Palette, DiagView> {
    match r {
        Err(d) => Err(d),
        Ok(p) => match value {
            None => Ok(p),
            Some(text) => match spec_parse_color(text@) {
                Ok(c) => Ok(with_slot(p, slot, c)),
                Err(f) => Err(
                    diag_at(
                        codes::BAD_COLOR,
                        field + ": "@ + color_error_message(f, trimmed(text@)),
                        field,
                    ),
                ),
            },
        },
    }
}

pub open spec fn result_view(r: Result<Palette, Diagnostic>) -> Result<Palette, DiagView> {
    match r {
        Ok(p) => Ok(p),
        Err(d) => Err(d@),
    }
}

fn set_color(r: Result<Palette, Diagnostic>, slot: Slot, value: &Option<String>, field: &str) -> (out: Result<Palette, Diagnostic>)
    ensures
        result_view(out) == set_color_spec(result_view(r), slot, *value, field@),
{
    match r {
        Err(d) => Err(d),
        Ok(p) => match value {
            None => Ok(p),
            Some(text) => match parse_color(text.as_str()) {
                Ok(c) => {
                    let mut p = p;
                    set_slot(&mut p, slot, c);
                    Ok(p)
                },
                Err(err) => {
                    proof {
                        reveal_strlit(": ");
                    }
                    let mut msg = String::from_str(field);
                    msg.append(": ");
                    let m = err.message();
                    msg.append(m.as_str());
                    Err(Diagnostic::error(codes::BAD_COLOR, msg.as_str()).at_path(field))
                },
            },
        },
    }
}

/// A color of the flat `colors:` map, if the map and the entry are there.
pub open spec fn flat_color(c: Option<RawColors>, slot: Slot) -> Option<String> {
    match c {
        None => None,
        Some(c) => match slot {
            Slot::Background => c.background,
            Slot::Foreground => c.foreground,
            Slot::PromptUser => c.prompt_user,
            Slot::PromptHost => c.prompt_host,
            Slot::PromptPath => c.prompt_path,
            Slot::PromptSymbol => c.prompt_symbol,
            Slot::Command => c.command,
            Slot::Cursor => c.cursor,
            Slot::Success => c.success,
            Slot::Warning => c.warning,
            Slot::Error => c.error,
            Slot::Muted => c.muted,
        },
    }
}

/// Reading a theme: the flat `colors:` map over the default palette, then the
/// nested `background`, `foreground`, `cursor`, `prompt:` and `status:` forms,
/// which win when both appear; the first malformed color is the error.
pub open spec fn palette_from_theme_spec(raw: RawTheme) -> Result<Palette, DiagView> {
    let r = Ok::<Palette, DiagView>(default_palette());
    let r = set_color_spec(r, Slot::Background, flat_color(raw.colors, Slot::Background), "colors.background"@);
    let r = set_color_spec(r, Slot::Foreground, flat_color(raw.colors, Slot::Foreground), "colors.foreground"@);
    let r = set_color_spec(r, Slot::PromptUser, flat_color(raw.colors, Slot::PromptUser), "colors.prompt_user"@);
    let r = set_color_spec(r, Slot::PromptHost, flat_color(raw.colors, Slot::PromptHost), "colors.prompt_host"@);
    let r = set_color_spec(r, Slot::PromptPath, flat_color(raw.colors, Slot::PromptPath), "colors.prompt_path"@);
    let r = set_color_spec(r, Slot::PromptSymbol, flat_color(raw.colors, Slot::PromptSymbol), "colors.prompt_symbol"@);
    let r = set_color_spec(r, Slot::Command, flat_color(raw.colors, Slot::Command), "colors.command"@);
    let r = set_color_spec(r, Slot::Cursor, flat_color(raw.colors, Slot::Cursor), "colors.cursor"@);
    let r = set_color_spec(r, Slot::Success, flat_color(raw.colors, Slot::Success), "colors.success"@);
    let r = set_color_spec(r, Slot::Warning, flat_color(raw.colors, Slot::Warning), "colors.warning"@);
    let r = set_color_spec(r, Slot::Error, flat_color(raw.colors, Slot::Error), "colors.error"@);
    let r = set_color_spec(r, Slot::Muted, flat_color(raw.colors, Slot::Muted), "colors.muted"@);
    let r = set_color_spec(r, Slot::Background, raw.background, "background"@);
    let r = set_color_spec(r, Slot::Foreground, raw.foreground, "foreground"@);
    let r = set_color_spec(r, Slot::Cursor, raw.cursor, "cursor"@);
    let r = match raw.prompt {
        Some(pr) => {
            let r = set_color_spec(r, Slot::PromptUser, pr.user, "prompt.user"@);
            let r = set_color_spec(r, Slot::PromptHost, pr.host, "prompt.host"@);
            let r = set_color_spec(r, Slot::PromptPath, pr.path, "prompt.path"@);
            set_color_spec(r, Slot::PromptSymbol, pr.symbol, "prompt.symbol"@)
        },
        None => r,
    };
    match raw.status {
        Some(st) => {
            let r = set_color_spec(r, Slot::Success, st.success, "status.success"@);
            let r = set_color_spec(r, Slot::Warning, st.pending, "status.pending"@);
            set_color_spec(r, Slot::Error, st.error, "status.error"@)
        },
        None => r,
    }
}

/// The palette a theme describes, or the first malformed color in it.
pub fn palette_from_theme(raw: &RawTheme) -> (r: Result<Palette, Diagnostic>)
    ensures
        result_view(r) == palette_from_theme_spec(*raw),
{
    let r: Result<Palette, Diagnostic> = Ok(Palette::default());
    let none: Option<String> = None;
    let r = match &raw.colors {
        Some(c) => set_color(r, Slot::Background, &c.background, "colors.background"),
        None => set_color(r, Slot::Background, &none, "colors.background"),
    };
    let r = match &raw.colors {
        Some(c) => set_color(r, Slot::Foreground, &c.foreground, "colors.foreground"),
        None => set_color(r, Slot::Foreground, &none, "colors.foreground"),
    };
    let r = match &raw.colors {
        Some(c) => set_color(r, Slot::PromptUser, &c.prompt_user, "colors.prompt_user"),
        None => set_color(r, Slot::PromptUser, &none, "colors.prompt_user"),
    };
    let r = match &raw.colors {
        Some(c) => set_color(r, Slot::PromptHost, &c.prompt_host, "colors.prompt_host"),
        None => set_color(r, Slot::PromptHost, &none, "colors.prompt_host"),
    };
    let r = match &raw.colors {
        Some(c) => set_color(r, Slot::PromptPath, &c.prompt_path, "colors.prompt_path"),
        None => set_color(r, Slot::PromptPath, &none, "colors.prompt_path"),
    };
    let r = match &raw.colors {
        Some(c) => set_color(r, Slot::PromptSymbol, &c.prompt_symbol, "colors.prompt_symbol"),
        None => set_color(r, Slot::PromptSymbol, &none, "colors.prompt_symbol"),
    };
    let r = match &raw.colors {
        Some(c) => set_color(r, Slot::Command, &c.command, "colors.command"),
        None => set_color(r, Slot::Command, &none, "colors.command"),
    };
    let r = match &raw.colors {
        Some(c) => set_color(r, Slot::Cursor, &c.cursor, "colors.cursor"),
        None => set_color(r, Slot::Cursor, &none, "colors.cursor"),
    };
    let r = match &raw.colors {
        Some(c) => set_color(r, Slot::Success, &c.success, "colors.success"),
        None => set_color(r, Slot::Success, &none, "colors.success"),
    };
    let r = match &raw.colors {
        Some(c) => set_color(r, Slot::Warning, &c.warning, "colors.warning"),
        None => set_color(r, Slot::Warning, &none, "colors.warning"),
    };
    let r = match &raw.colors {
        Some(c) => set_color(r, Slot::Error, &c.error, "colors.error"),
        None => set_color(r, Slot::Error, &none, "colors.error"),
    };
    let r = match &raw.colors {
        Some(c) => set_color(r, Slot::Muted, &c.muted, "colors.muted"),
        None => set_color(r, Slot::Muted, &none, "colors.muted"),
    };
    let r = set_color(r, Slot::Background, &raw.background, "background");
    let r = set_color(r, Slot::Foreground, &raw.foreground, "foreground");
    let r = set_color(r, Slot::Cursor, &raw.cursor, "cursor");
    let r = match &raw.prompt {
        Some(pr) => {
            let r = set_color(r, Slot::PromptUser, &pr.user, "prompt.user");
            let r = set_color(r, Slot::PromptHost, &pr.host, "prompt.host");
            let r = set_color(r, Slot::PromptPath, &pr.path, "prompt.path");
            set_color(r, Slot::PromptSymbol, &pr.symbol, "prompt.symbol")
        },
        None => r,
    };
    match &raw.status {
        Some(st) => {
            let r = set_color(r, Slot::Success, &st.success, "status.success");
            let r = set_color(r, Slot::Warning, &st.pending, "status.pending");
            set_color(r, Slot::Error, &st.error, "status.error")
        },
        None => r,
    }
}

/// What reading a project theme file gave.
#[derive(Debug, Clone, PartialEq, Eq)]
pub enum ThemeSource {
    /// The file could not be read; the reason as text.
    Unreadable(String),
    /// The file is not a valid theme document; the parser's message.
    Invalid(String),
    /// The theme the file holds.
    Parsed(RawTheme),
}

/// A project theme file that exists, and what reading it gave.
#[derive(Debug, Clone, PartialEq, Eq)]
pub struct ThemeFile {
    pub path: String,
    pub source: ThemeSource,
}

/// The hint listing the built-in themes, one per line.
pub open spec fn names_hint_from(names: Seq<Seq<char>>) -> Seq<char>
    decreases names.len(),
{
    if names.len() == 0 {
        Seq::empty()
    } else if names.len() == 1 {
        names[0]
    } else {
        names_hint_from(names.drop_last()) + "\n  "@ + names.last()
    }
}

pub open spec fn unknown_theme_hint() -> Seq<char> {
    "Available built-in themes:\n  "@ + names_hint_from(builtin_names())
}

fn names_hint() -> (s: String)
    ensures
        s@ == unknown_theme_hint(),
{
    proof {
        reveal_strlit("Available built-in themes:\n  ");
        reveal_strlit("\n  ");
    }
    let names = list_builtin_names();
    let mut s = String::from_str("Available built-in themes:\n  ");
    let ghost head = s@;
    let mut i: usize = 0;
    while i < names.len()
        invariant
            i <= names@.len() == builtin_names().len(),
            forall|k: int| 0 <= k < names@.len() ==> #[trigger] names@[k]@ == builtin_names()[k],
            s@ == head + names_hint_from(builtin_names().take(i as int)),
        decreases names@.len() - i,
    {
        proof {
            assert(builtin_names().take(i + 1).drop_last() =~= builtin_names().take(i as int));
        }
        if i > 0 {
            s.append("\n  ");
        }
        s.append(names[i]);
        i = i + 1;
        proof {
            assert(s@ =~= head + names_hint_from(builtin_names().take(i as int)));
        }
    }
    proof {
        assert(builtin_names().take(i as int) =~= builtin_names());
    }
    s
}

/// Finding a theme: a project theme file of that name shadows the built-in one;
/// otherwise the built-in palette, or an unknown-theme error listing the
/// built-ins.
pub open spec fn load_theme_spec(name: Seq<char>, file: Option<ThemeFile>) -> Result<Palette, DiagView> {
    match file {
        Some(f) => match f.source {
            ThemeSource::Unreadable(e) => Err(
                error_view(code_of(codes::UNKNOWN_THEME), "cannot read theme "@ + f.path@ + ": "@ + e@),
            ),
            ThemeSource::Invalid(e) => Err(
                DiagView {
                    file: Some(f.path@),
                    ..error_view(code_of(codes::YAML_SYNTAX), "invalid theme: "@ + e@)
                },
            ),
            ThemeSource::Parsed(raw) => match palette_from_theme_spec(raw) {
                Ok(p) => Ok(p),
                Err(d) => Err(DiagView { file: Some(f.path@), ..d }),
            },
        },
        None => match builtin_spec(name) {
            Some(p) => Ok(p),
            None => Err(
                hinted(
                    error_view(code_of(codes::UNKNOWN_THEME), "unknown theme `"@ + name + "`"@),
                    unknown_theme_hint(),
                ),
            ),
        },
    }
}

/// The palette for theme `name`. `file` is the project theme file of that name
/// when one exists (reading it is the caller's part); it shadows the built-ins.
pub fn load_theme(name: &str, file: Option<&ThemeFile>) -> (r: Result<Palette, Diagnostic>)
    ensures
        result_view(r) == load_theme_spec(
            name@,
            match file {
                Some(f) => Some(*f),
                None => None,
            },
        ),
{
    match file {
        Some(f) => match &f.source {
            ThemeSource::Unreadable(e) => {
                proof {
                    reveal_strlit("cannot read theme ");
                    reveal_strlit(": ");
                }
                let mut msg = String::from_str("cannot read theme ");
                msg.append(f.path.as_str());
                msg.append(": ");
                msg.append(e.as_str());
                Err(Diagnostic::error(codes::UNKNOWN_THEME, msg.as_str()))
            },
            ThemeSource::Invalid(e) => {
                proof {
                    reveal_strlit("invalid theme: ");
                }
                let mut msg = String::from_str("invalid theme: ");
                msg.append(e.as_str());
                Err(Diagnostic::error(codes::YAML_SYNTAX, msg.as_str()).in_file(f.path.as_str()))
            },
            ThemeSource::Parsed(raw) => match palette_from_theme(raw) {
                Ok(p) => Ok(p),
                Err(d) => Err(d.in_file(f.path.as_str())),
            },
        },
        None => match builtin(name) {
            Some(p) => Ok(p),
            None => {
                proof {
                    reveal_strlit("unknown theme `");
                    reveal_strlit("`");
                }
                let mut msg = String::from_str("unknown theme `");
                msg.append(name);
                msg.append("`");
                let hint = names_hint();
                Err(Diagnostic::error(codes::UNKNOWN_THEME, msg.as_str()).with_hint(hint.as_str()))
            },
        },
    }
}


/// A theme name resolves to a built-in palette exactly when it is one of the
/// listed built-in names.
pub proof fn lemma_builtin_names_resolve(name: Seq<char>)
    ensures
        builtin_spec(name) is Some <==> builtin_names().contains(name),
{
    if builtin_spec(name) is Some {
        let names = builtin_names();
        if name == "terminal-green"@ {
            assert(names[0] == name);
        } else if name == "terminal-amber"@ {
            assert(names[1] == name);
        } else if name == "terminal-white"@ {
            assert(names[2] == name);
        } else if name == "matrix-green"@ {
            assert(names[3] == name);
        } else if name == "unix-dark"@ {
            assert(names[4] == name);
        } else if name == "retro-crt"@ {
            assert(names[5] == name);
        } else {
            assert(names[6] == name);
        }
    }
}

} // verus!
