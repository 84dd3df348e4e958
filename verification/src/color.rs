//! Straight-alpha RGBA colors and the `#RGB` / `#RRGGBB` / `#RRGGBBAA` parser.
use crate::text::{
    is_ws, lemma_skip_ws_bounds, lemma_trim_end_bounds, lemma_trimmed_idempotent, skip_ws_from, str_chars, string_from_chars,
    trim_chars, trim_end_at, trimmed,
};
use vstd::prelude::*;

verus! {

/// Straight (non-premultiplied) 8-bit RGBA.
#[derive(Debug, Clone, Copy, PartialEq, Eq, Hash, Default, Structural)]
pub struct Color {
    pub r: u8,
    pub g: u8,
    pub b: u8,
    pub a: u8,
}

impl Color {
    /// Fully transparent black.
    pub fn transparent() -> (c: Color)
        ensures
            c == (Color { r: 0, g: 0, b: 0, a: 0 }),
    {
        Color { r: 0, g: 0, b: 0, a: 0 }
    }

    /// Opaque black.
    pub fn black() -> (c: Color)
        ensures
            c == (Color { r: 0, g: 0, b: 0, a: 255 }),
    {
        Color { r: 0, g: 0, b: 0, a: 255 }
    }

    /// Opaque white.
    pub fn white() -> (c: Color)
        ensures
            c == (Color { r: 255, g: 255, b: 255, a: 255 }),
    {
        Color { r: 255, g: 255, b: 255, a: 255 }
    }

    pub fn rgb(r: u8, g: u8, b: u8) -> (c: Color)
        ensures
            c == (Color { r, g, b, a: 255 }),
    {
        Color { r, g, b, a: 255 }
    }

    pub fn rgba(r: u8, g: u8, b: u8, a: u8) -> (c: Color)
        ensures
            c == (Color { r, g, b, a }),
    {
        Color { r, g, b, a }
    }
}

/// Which rule a rejected color text broke.
#[derive(Debug, Clone, Copy, PartialEq, Eq, Structural)]
pub enum ColorFault {
    MissingHash,
    BadLength,
    BadDigit,
}

/// A rejected color, carrying the trimmed input text.
#[derive(Debug, Clone, PartialEq, Eq)]
pub enum ColorParseError {
    MissingHash(String),
    BadLength(String),
    BadDigit(String),
}

impl ColorParseError {
    pub open spec fn fault(&self) -> ColorFault {
        match self {
            ColorParseError::MissingHash(_) => ColorFault::MissingHash,
            ColorParseError::BadLength(_) => ColorFault::BadLength,
            ColorParseError::BadDigit(_) => ColorFault::BadDigit,
        }
    }

    pub open spec fn text(&self) -> Seq<char> {
        match self {
            ColorParseError::MissingHash(t) => t@,
            ColorParseError::BadLength(t) => t@,
            ColorParseError::BadDigit(t) => t@,
        }
    }

    /// The human-readable message for this error.
    pub fn message(&self) -> (m: String)
        ensures
            m@ == color_error_message(self.fault(), self.text()),
    {
        let (t, tail) = match self {
            ColorParseError::MissingHash(t) => (t, "` must start with `#`"),
            ColorParseError::BadLength(t) => (t, "` must have 3, 6, or 8 hex digits"),
            ColorParseError::BadDigit(t) => (t, "` contains a non-hexadecimal digit"),
        };
        let mut m = String::from_str("color `");
        m.append(t.as_str());
        m.append(tail);
        proof {
            reveal_strlit("color `");
            reveal_strlit("` must start with `#`");
            reveal_strlit("` must have 3, 6, or 8 hex digits");
            reveal_strlit("` contains a non-hexadecimal digit");
        }
        m
    }
}

pub open spec fn color_error_message(f: ColorFault, t: Seq<char>) -> Seq<char> {
    "color `"@ + t + match f {
        ColorFault::MissingHash => "` must start with `#`"@,
        ColorFault::BadLength => "` must have 3, 6, or 8 hex digits"@,
        ColorFault::BadDigit => "` contains a non-hexadecimal digit"@,
    }
}

/// `char::is_ascii_hexdigit`.
pub open spec fn is_hex(c: char) -> bool {
    ('0' <= c && c <= '9') || ('a' <= c && c <= 'f') || ('A' <= c && c <= 'F')
}

/// Value of a hexadecimal digit.
pub open spec fn hex_value(c: char) -> u8 {
    if '0' <= c && c <= '9' {
        (c as u32 - '0' as u32) as u8
    } else if 'a' <= c && c <= 'f' {
        (c as u32 - 'a' as u32 + 10) as u8
    } else {
        (c as u32 - 'A' as u32 + 10) as u8
    }
}

fn hex_digit(c: char) -> (r: Option<u8>)
    ensures
        is_hex(c) ==> r == Some(hex_value(c)),
        !is_hex(c) ==> r is None,
        r matches Some(v) ==> v < 16,
{
    if '0' <= c && c <= '9' {
        Some((c as u32 - '0' as u32) as u8)
    } else if 'a' <= c && c <= 'f' {
        Some((c as u32 - 'a' as u32 + 10) as u8)
    } else if 'A' <= c && c <= 'F' {
        Some((c as u32 - 'A' as u32 + 10) as u8)
    } else {
        None
    }
}

pub open spec fn pair_value(b: Seq<char>, i: int) -> u8 {
    (hex_value(b[i]) * 16 + hex_value(b[i + 1])) as u8
}

/// What `parse_color` yields for the text `s`.
pub open spec fn spec_parse_color(s: Seq<char>) -> Result<Color, ColorFault> {
    let t = trimmed(s);
    if t.len() == 0 || t[0] != '#' {
        Err(ColorFault::MissingHash)
    } else {
        let body = t.drop_first();
        if !(forall|i: int| 0 <= i < body.len() ==> is_hex(#[trigger] body[i])) {
            Err(ColorFault::BadDigit)
        } else if body.len() == 3 {
            Ok(
                Color {
                    r: (hex_value(body[0]) * 17) as u8,
                    g: (hex_value(body[1]) * 17) as u8,
                    b: (hex_value(body[2]) * 17) as u8,
                    a: 255,
                },
            )
        } else if body.len() == 6 || body.len() == 8 {
            Ok(
                Color {
                    r: pair_value(body, 0),
                    g: pair_value(body, 2),
                    b: pair_value(body, 4),
                    a: if body.len() == 8 {
                        pair_value(body, 6)
                    } else {
                        255
                    },
                },
            )
        } else {
            Err(ColorFault::BadLength)
        }
    }
}

/// Parses `#RGB`, `#RRGGBB`, and `#RRGGBBAA`, ignoring surrounding whitespace and
/// letter case.
pub fn parse_color(input: &str) -> (r: Result<Color, ColorParseError>)
    ensures
        match r {
            Ok(c) => spec_parse_color(input@) == Ok::<Color, ColorFault>(c),
            Err(e) => spec_parse_color(input@) == Err::<Color, ColorFault>(e.fault())
                && e.text() == trimmed(input@),
        },
{
    let all = str_chars(input);
    let t = trim_chars(all.as_slice());
    if t.len() == 0 || t[0] != '#' {
        return Err(ColorParseError::MissingHash(string_from_chars(t.as_slice())));
    }
    let ghost body = t@.drop_first();
    let n = t.len() - 1;
    let mut digits: Vec<u8> = Vec::new();
    let mut i: usize = 0;
    while i < n
        invariant
            t@.len() == n + 1,
            t@ == trimmed(input@),
            t@[0] == '#',
            n == body.len(),
            body == t@.drop_first(),
            i <= n,
            digits@.len() == i,
            forall|j: int| 0 <= j < i ==> is_hex(#[trigger] body[j]) && digits@[j] == hex_value(
                body[j],
            ) && digits@[j] < 16,
        decreases n - i,
    {
        match hex_digit(t[i + 1]) {
            Some(v) => {
                digits.push(v);
            },
            None => {
                proof {
                    assert(t@[i + 1] == body[i as int]);
                    assert(!is_hex(body[i as int]));
                }
                return Err(ColorParseError::BadDigit(string_from_chars(t.as_slice())));
            },
        }
        i = i + 1;
    }
    if n == 3 {
        Ok(Color::rgb(digits[0] * 17, digits[1] * 17, digits[2] * 17))
    } else if n == 6 || n == 8 {
        let a = if n == 8 {
            digits[6] * 16 + digits[7]
        } else {
            255
        };
        Ok(
            Color::rgba(
                digits[0] * 16 + digits[1],
                digits[2] * 16 + digits[3],
                digits[4] * 16 + digits[5],
                a,
            ),
        )
    } else {
        Err(ColorParseError::BadLength(string_from_chars(t.as_slice())))
    }
}

/// `char::to_ascii_lowercase`.
pub open spec fn ascii_lower(c: char) -> char {
    if 'A' <= c && c <= 'Z' {
        ((c as u32) + 32) as char
    } else {
        c
    }
}

/// The text with every ASCII capital letter lowered.
pub open spec fn lowered(s: Seq<char>) -> Seq<char> {
    s.map_values(|c: char| ascii_lower(c))
}

proof fn lemma_lower_char(c: char)
    ensures
        is_ws(ascii_lower(c)) == is_ws(c),
        is_hex(ascii_lower(c)) == is_hex(c),
        is_hex(c) ==> hex_value(ascii_lower(c)) == hex_value(c),
        (ascii_lower(c) == '#') == (c == '#'),
{
    if 'A' <= c && c <= 'Z' {
        let l = ascii_lower(c);
        assert(l as u32 == c as u32 + 32);
        assert('a' <= l && l <= 'z');
    }
}

proof fn lemma_lower_skip_ws(s: Seq<char>, i: int)
    ensures
        skip_ws_from(lowered(s), i) == skip_ws_from(s, i),
    decreases s.len() - i,
{
    if 0 <= i < s.len() {
        lemma_lower_char(s[i]);
        assert(lowered(s)[i] == ascii_lower(s[i]));
        lemma_lower_skip_ws(s, i + 1);
    }
}

proof fn lemma_lower_trim_end(s: Seq<char>, j: int)
    ensures
        trim_end_at(lowered(s), j) == trim_end_at(s, j),
    decreases j,
{
    if 0 < j <= s.len() {
        lemma_lower_char(s[j - 1]);
        assert(lowered(s)[j - 1] == ascii_lower(s[j - 1]));
        lemma_lower_trim_end(s, j - 1);
    }
}

/// Color parsing ignores letter case: lowering every ASCII capital of the text
/// gives the same color, or the same rejection.
pub proof fn lemma_color_parse_ignores_case(s: Seq<char>)
    ensures
        spec_parse_color(lowered(s)) == spec_parse_color(s),
{
    let ls = lowered(s);
    lemma_lower_skip_ws(s, 0);
    lemma_lower_trim_end(s, s.len() as int);
    lemma_skip_ws_bounds(s, 0);
    lemma_trim_end_bounds(s, s.len() as int);
    let t = trimmed(s);
    let lt = trimmed(ls);
    let lo = skip_ws_from(s, 0);
    let hi = trim_end_at(s, s.len() as int);
    if hi > lo {
        assert forall|i: int| 0 <= i < hi - lo implies lt[i] == lowered(t)[i] by {
            assert(lt[i] == ls[lo + i]);
            assert(t[i] == s[lo + i]);
        }
    }
    assert(lt =~= lowered(t));
    if t.len() > 0 {
        lemma_lower_char(t[0]);
        assert(lt[0] == ascii_lower(t[0]));
        let body = t.drop_first();
        let lbody = lt.drop_first();
        assert forall|i: int| 0 <= i < body.len() implies lbody[i] == ascii_lower(body[i]) && is_hex(
            #[trigger] lbody[i],
        ) == is_hex(body[i]) by {
            assert(lbody[i] == lt[i + 1]);
            assert(body[i] == t[i + 1]);
            lemma_lower_char(body[i]);
        }
        if forall|i: int| 0 <= i < body.len() ==> is_hex(#[trigger] body[i]) {
            assert forall|i: int| 0 <= i < body.len() implies hex_value(#[trigger] lbody[i])
                == hex_value(body[i]) by {
                lemma_lower_char(body[i]);
            }
            assert(forall|i: int| 0 <= i < lbody.len() ==> is_hex(#[trigger] lbody[i]));
        } else {
            let k = choose|i: int| 0 <= i < body.len() && !is_hex(#[trigger] body[i]);
            assert(!is_hex(lbody[k]));
        }
    }
}

/// Color parsing ignores surrounding whitespace: trimming the text first
/// changes nothing.
pub proof fn lemma_color_parse_trims(s: Seq<char>)
    ensures
        spec_parse_color(trimmed(s)) == spec_parse_color(s),
{
    lemma_trimmed_idempotent(s);
}

} // verus!
