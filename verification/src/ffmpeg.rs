//! What the encoder needs to know about FFmpeg: reading its version banner and
//! encoder listing, and the argument vector for a streaming encode.
use crate::config::{format_name, OutputConfig, OutputFormat, OutputView};
use crate::text::{
    lemma_decimal_digits,
    append_decimal, decimal, decimal_string, is_whitespace, is_ws, skip_ws_from, str_chars,
    string_from_chars,
};
use vstd::prelude::*;

verus! {

/// Name of the VP9 encoder as `ffmpeg -encoders` lists it, used for WebM.
pub const VP9_ENCODER: &'static str = "libvpx-vp9";

/// Name of the H.264 encoder as `ffmpeg -encoders` lists it, used for MP4.
pub const H264_ENCODER: &'static str = "libx264";

/// What went wrong with FFmpeg.
#[derive(Debug, Clone, PartialEq, Eq)]
pub enum FfmpegError {
    NotFound { path: String },
    Spawn(String),
    Failed { status: String, stderr: String },
    MissingEncoder(&'static str),
}

/// The message each FFmpeg error reads as.
pub open spec fn ffmpeg_message(e: FfmpegError) -> Seq<char> {
    match e {
        FfmpegError::NotFound { path } => "ffmpeg not found at `"@ + path@ + "`"@,
        FfmpegError::Spawn(m) => "ffmpeg failed to start: "@ + m@,
        FfmpegError::Failed { status, stderr } => "ffmpeg exited with status "@ + status@ + ":\n"@
            + stderr@,
        FfmpegError::MissingEncoder(n) => "ffmpeg was built without the `"@ + n@ + "` encoder"@,
    }
}

impl FfmpegError {
    /// The error as a sentence, the way it is reported.
    pub fn message(&self) -> (m: String)
        ensures
            m@ == ffmpeg_message(*self),
    {
        match self {
            FfmpegError::NotFound { path } => {
                let mut m = String::from_str("ffmpeg not found at `");
                m.append(path.as_str());
                m.append("`");
                proof {
                    reveal_strlit("ffmpeg not found at `");
                    reveal_strlit("`");
                    assert(m@ =~= ffmpeg_message(*self));
                }
                m
            },
            FfmpegError::Spawn(t) => {
                let mut m = String::from_str("ffmpeg failed to start: ");
                m.append(t.as_str());
                proof {
                    reveal_strlit("ffmpeg failed to start: ");
                    assert(m@ =~= ffmpeg_message(*self));
                }
                m
            },
            FfmpegError::Failed { status, stderr } => {
                let mut m = String::from_str("ffmpeg exited with status ");
                m.append(status.as_str());
                m.append(":\n");
                m.append(stderr.as_str());
                proof {
                    reveal_strlit("ffmpeg exited with status ");
                    reveal_strlit(":\n");
                    assert(m@ =~= ffmpeg_message(*self));
                }
                m
            },
            FfmpegError::MissingEncoder(n) => {
                let mut m = String::from_str("ffmpeg was built without the `");
                m.append(*n);
                m.append("` encoder");
                proof {
                    reveal_strlit("ffmpeg was built without the `");
                    reveal_strlit("` encoder");
                    assert(m@ =~= ffmpeg_message(*self));
                }
                m
            },
        }
    }
}

/// Result of probing an FFmpeg binary for its version and encoder support.
#[derive(Debug, Clone, PartialEq, Eq)]
pub struct FfmpegInfo {
    pub version: String,
    pub has_vp9: bool,
    pub has_h264: bool,
}

/// A located FFmpeg binary: the path or command name it is run by.
#[derive(Debug, Clone)]
pub struct Ffmpeg {
    binary: String,
}

impl Ffmpeg {
    pub fn new(binary: String) -> (f: Ffmpeg)
        ensures
            f.binary_spec() == binary@,
    {
        Ffmpeg { binary }
    }

    pub closed spec fn binary_spec(&self) -> Seq<char> {
        self.binary@
    }

    /// The resolved binary path or command name, as it is run.
    pub fn binary(&self) -> (b: &String)
        ensures
            b@ == self.binary_spec(),
    {
        &self.binary
    }
}

/// The end of the run of non-whitespace characters starting at `i`.
pub open spec fn token_end(s: Seq<char>, i: int) -> int
    decreases s.len() - i,
{
    if i < 0 || i >= s.len() || is_ws(s[i]) {
        i
    } else {
        token_end(s, i + 1)
    }
}

proof fn lemma_token_end(s: Seq<char>, i: int)
    requires
        0 <= i <= s.len(),
    ensures
        i <= token_end(s, i) <= s.len(),
        i < s.len() && !is_ws(s[i]) ==> token_end(s, i) > i,
    decreases s.len() - i,
{
    if i < s.len() && !is_ws(s[i]) {
        lemma_token_end(s, i + 1);
    }
}

proof fn lemma_skip_ws(s: Seq<char>, i: int)
    requires
        0 <= i <= s.len(),
    ensures
        i <= skip_ws_from(s, i) <= s.len(),
        skip_ws_from(s, i) < s.len() ==> !is_ws(s[skip_ws_from(s, i)]),
    decreases s.len() - i,
{
    if i < s.len() && is_ws(s[i]) {
        lemma_skip_ws(s, i + 1);
    }
}

/// The `n`-th whitespace-separated token of `s` from position `i` on.
pub open spec fn nth_token(s: Seq<char>, i: int, n: nat) -> Option<Seq<char>>
    decreases s.len() - i, n,
{
    if i < 0 || i > s.len() {
        None
    } else {
        let a = skip_ws_from(s, i);
        if a >= s.len() || a < i {
            None
        } else {
            let b = token_end(s, a);
            if n == 0 {
                Some(s.subrange(a, b))
            } else if b <= a || b > s.len() {
                None
            } else {
                nth_token(s, b, (n - 1) as nat)
            }
        }
    }
}

/// The end of the line starting at `i`: the next `\n`, or the end.
pub open spec fn line_end(s: Seq<char>, i: int) -> int
    decreases s.len() - i,
{
    if i < 0 || i >= s.len() || s[i] == '\n' {
        i
    } else {
        line_end(s, i + 1)
    }
}

pub proof fn lemma_line_end(s: Seq<char>, i: int)
    requires
        0 <= i <= s.len(),
    ensures
        i <= line_end(s, i) <= s.len(),
        line_end(s, i) < s.len() ==> s[line_end(s, i)] == '\n',
    decreases s.len() - i,
{
    if i < s.len() && s[i] != '\n' {
        lemma_line_end(s, i + 1);
    }
}

/// The first line of `s` (a `\r` before its `\n` dropped), or nothing for empty
/// text.
pub open spec fn first_line(s: Seq<char>) -> Option<Seq<char>> {
    if s.len() == 0 {
        None
    } else {
        let e = line_end(s, 0);
        if e < s.len() && e > 0 && s[e - 1] == '\r' {
            Some(s.subrange(0, e - 1))
        } else {
            Some(s.subrange(0, e))
        }
    }
}

/// The version token of an `ffmpeg -version` banner: the first token after
/// `ffmpeg version ` on its first line.
pub open spec fn parse_version_spec(banner: Seq<char>) -> Option<Seq<char>> {
    match first_line(banner) {
        None => None,
        Some(line) => {
            let p = "ffmpeg version "@;
            if line.len() >= p.len() && line.subrange(0, p.len() as int) == p {
                nth_token(line.subrange(p.len() as int, line.len() as int), 0, 0)
            } else {
                None
            }
        },
    }
}

/// Whether some line from position `i` on has `name` as its second token.
pub open spec fn lists_encoder_from(s: Seq<char>, i: int, name: Seq<char>) -> bool
    decreases s.len() - i,
{
    if i < 0 || i >= s.len() {
        false
    } else {
        let e = line_end(s, i);
        proof {
            lemma_line_end(s, i);
        }
        if e < i {
            false
        } else if e >= s.len() {
            nth_token(s.subrange(i, e), 0, 1) == Some(name)
        } else {
            nth_token(s.subrange(i, e), 0, 1) == Some(name) || lists_encoder_from(s, e + 1, name)
        }
    }
}

fn token_bounds(s: &Vec<char>, lo: usize, hi: usize, i: usize) -> (r: (usize, usize))
    requires
        lo <= i <= hi <= s@.len(),
    ensures
        r.0 == lo + skip_ws_from(s@.subrange(lo as int, hi as int), i - lo),
        r.1 == lo + token_end(s@.subrange(lo as int, hi as int), r.0 - lo),
        i <= r.0 <= r.1 <= hi,
{
    let ghost t = s@.subrange(lo as int, hi as int);
    proof {
        lemma_skip_ws(t, i - lo);
    }
    let mut a = i;
    while a < hi && is_whitespace(s[a])
        invariant
            lo <= i <= a <= hi <= s@.len(),
            t == s@.subrange(lo as int, hi as int),
            skip_ws_from(t, i - lo) == skip_ws_from(t, a - lo),
        decreases hi - a,
    {
        assert(t[a - lo] == s@[a as int]);
        a = a + 1;
    }
    proof {
        if a < hi {
            assert(t[a - lo] == s@[a as int]);
        }
    }
    proof {
        lemma_token_end(t, a - lo);
    }
    let mut b = a;
    while b < hi && !is_whitespace(s[b])
        invariant
            lo <= a <= b <= hi <= s@.len(),
            t == s@.subrange(lo as int, hi as int),
            token_end(t, a - lo) == token_end(t, b - lo),
        decreases hi - b,
    {
        assert(t[b - lo] == s@[b as int]);
        b = b + 1;
    }
    proof {
        if b < hi {
            assert(t[b - lo] == s@[b as int]);
        }
    }
    (a, b)
}

/// Extracts the version token from an `ffmpeg -version` banner's first line, e.g.
/// `ffmpeg version 8.0.1 Copyright ...` -> `8.0.1`, or `ffmpeg version
/// n6.1.1-1ubuntu1 Copyright ...` -> `n6.1.1-1ubuntu1`.
pub fn parse_version(banner: &str) -> (r: Option<String>)
    ensures
        match r {
            Some(v) => parse_version_spec(banner@) == Some(v@),
            None => parse_version_spec(banner@) is None,
        },
{
    proof {
        reveal_strlit("ffmpeg version ");
    }
    let s = str_chars(banner);
    if s.len() == 0 {
        return None;
    }
    proof {
        lemma_line_end(s@, 0);
    }
    let mut e: usize = 0;
    while e < s.len() && s[e] != '\n'
        invariant
            e <= s@.len(),
            line_end(s@, 0) == line_end(s@, e as int),
        decreases s@.len() - e,
    {
        e = e + 1;
    }
    let end = if e < s.len() && e > 0 && s[e - 1] == '\r' {
        e - 1
    } else {
        e
    };
    let ghost line = s@.subrange(0, end as int);
    proof {
        assert(first_line(s@) == Some(line));
    }
    let p = str_chars("ffmpeg version ");
    if end < p.len() {
        return None;
    }
    let mut k: usize = 0;
    while k < p.len()
        invariant
            k <= p@.len() <= end <= s@.len(),
            line == s@.subrange(0, end as int),
            first_line(s@) == Some(line),
            s@ == banner@,
            p@ == "ffmpeg version "@,
            forall|t: int| 0 <= t < k ==> s@[t] == p@[t],
        decreases p@.len() - k,
    {
        if s[k] != p[k] {
            proof {
                assert(line.subrange(0, p@.len() as int)[k as int] == s@[k as int]);
                assert(line.subrange(0, p@.len() as int) != p@);
            }
            return None;
        }
        k = k + 1;
    }
    proof {
        assert(line.subrange(0, p@.len() as int) =~= p@);
        assert(line.subrange(p@.len() as int, line.len() as int) =~= s@.subrange(
            p@.len() as int,
            end as int,
        ));
        lemma_skip_ws(s@.subrange(p@.len() as int, end as int), 0);
    }
    let (a, b) = token_bounds(&s, p.len(), end, p.len());
    if a >= end {
        return None;
    }
    let mut out: Vec<char> = Vec::new();
    let mut j = a;
    while j < b
        invariant
            a <= j <= b <= s@.len(),
            out@ == s@.subrange(a as int, j as int),
        decreases b - j,
    {
        out.push(s[j]);
        j = j + 1;
        proof {
            assert(out@ =~= s@.subrange(a as int, j as int));
        }
    }
    proof {
        let t = s@.subrange(p@.len() as int, end as int);
        assert(t.subrange(a - p@.len(), b - p@.len()) =~= s@.subrange(a as int, b as int));
    }
    Some(string_from_chars(out.as_slice()))
}

/// Whether `s[c..d]` spells `name`.
fn range_is(s: &Vec<char>, c: usize, d: usize, name: &Vec<char>) -> (r: bool)
    requires
        c <= d <= s@.len(),
    ensures
        r == (s@.subrange(c as int, d as int) == name@),
{
    if d - c != name.len() {
        proof {
            assert(s@.subrange(c as int, d as int).len() != name@.len());
        }
        return false;
    }
    let mut k: usize = 0;
    while k < name.len()
        invariant
            c <= d <= s@.len(),
            d - c == name@.len(),
            k <= name@.len(),
            forall|t: int| 0 <= t < k ==> s@[c + t] == name@[t],
        decreases name@.len() - k,
    {
        if s[c + k] != name[k] {
            proof {
                assert(s@.subrange(c as int, d as int)[k as int] != name@[k as int]);
            }
            return false;
        }
        k = k + 1;
    }
    proof {
        assert(s@.subrange(c as int, d as int) =~= name@);
    }
    true
}

/// Checks whether `name` appears as the encoder-name column (the second
/// whitespace-separated token) of some line of an `ffmpeg -encoders` listing,
/// not merely as a substring anywhere in a line.
pub fn has_encoder(listing: &str, name: &str) -> (r: bool)
    ensures
        r == lists_encoder_from(listing@, 0, name@),
{
    let s = str_chars(listing);
    let nm = str_chars(name);
    let n = s.len();
    let mut i: usize = 0;
    while i < n
        invariant
            i <= n == s@.len(),
            s@ == listing@,
            nm@ == name@,
            lists_encoder_from(s@, 0, name@) == lists_encoder_from(s@, i as int, name@),
        decreases n - i,
    {
        proof {
            lemma_line_end(s@, i as int);
        }
        let mut e: usize = i;
        while e < n && s[e] != '\n'
            invariant
                i <= e <= n == s@.len(),
                line_end(s@, i as int) == line_end(s@, e as int),
            decreases n - e,
        {
            e = e + 1;
        }
        let ghost line = s@.subrange(i as int, e as int);
        let (a, b) = token_bounds(&s, i, e, i);
        let mut found = false;
        if a < e {
            proof {
                lemma_token_end(line, a - i);
                lemma_skip_ws(line, a - i);
            }
            let (c, d) = token_bounds(&s, i, e, b);
            if c < e {
                found = range_is(&s, c, d, &nm);
                proof {
                    assert(line.subrange(c - i, d - i) =~= s@.subrange(c as int, d as int));
                }
            }
        }
        proof {
            reveal_with_fuel(nth_token, 3);
            lemma_skip_ws(line, 0);
            assert(found == (nth_token(line, 0, 1) == Some(name@)));
        }
        if found {
            return true;
        }
        if e >= n {
            return false;
        }
        i = e + 1;
    }
    false
}

/// The FFmpeg argument list for an encode: raw RGBA frames of the configured size
/// and rate on stdin, the format's encoder and quality, then the output path
/// behind FFmpeg's `file:` protocol so it cannot be read as another protocol.
pub open spec fn ffmpeg_args_spec(c: OutputView) -> Seq<Seq<char>> {
    let head = seq![
        "-hide_banner"@,
        "-y"@,
        "-f"@,
        "rawvideo"@,
        "-pix_fmt"@,
        "rgba"@,
        "-s"@,
        decimal(c.size.width as nat) + "x"@ + decimal(c.size.height as nat),
        "-r"@,
        decimal(c.fps.0 as nat) + "/"@ + decimal(c.fps.1 as nat),
        "-i"@,
        "-"@
    ];
    let codec: Seq<Seq<char>> = match c.format {
        OutputFormat::WebM => seq![
            "-c:v"@,
            "libvpx-vp9"@,
            "-pix_fmt"@,
            "yuv420p"@,
            "-crf"@,
            decimal(c.quality as nat),
            "-b:v"@,
            "0"@
        ],
        OutputFormat::Mp4 => seq![
            "-c:v"@,
            "libx264"@,
            "-pix_fmt"@,
            "yuv420p"@,
            "-crf"@,
            decimal(c.quality as nat),
            "-movflags"@,
            "+faststart"@
        ],
        _ => Seq::empty(),
    };
    head + codec + seq!["file:"@ + c.path]
}

pub open spec fn strings_of(v: Seq<String>) -> Seq<Seq<char>> {
    Seq::new(v.len(), |i: int| v[i]@)
}

fn push_str(v: &mut Vec<String>, s: &str)
    ensures
        strings_of(final(v)@) == strings_of(old(v)@).push(s@),
{
    let ghost v0 = strings_of(v@);
    v.push(String::from_str(s));
    proof {
        assert(strings_of(v@) =~= v0.push(s@));
    }
}

fn push_string(v: &mut Vec<String>, s: String)
    ensures
        strings_of(final(v)@) == strings_of(old(v)@).push(s@),
{
    let ghost v0 = strings_of(v@);
    let ghost sv = s@;
    v.push(s);
    proof {
        assert(strings_of(v@) =~= v0.push(sv));
    }
}

/// Builds the FFmpeg argument list for `config` (see `ffmpeg_args_spec`).
pub fn ffmpeg_args(config: &OutputConfig) -> (args: Vec<String>)
    ensures
        strings_of(args@) == ffmpeg_args_spec(config@),
{
    proof {
        reveal_strlit("-hide_banner");
        reveal_strlit("-y");
        reveal_strlit("-f");
        reveal_strlit("rawvideo");
        reveal_strlit("-pix_fmt");
        reveal_strlit("rgba");
        reveal_strlit("-s");
        reveal_strlit("x");
        reveal_strlit("-r");
        reveal_strlit("/");
        reveal_strlit("-i");
        reveal_strlit("-");
        reveal_strlit("-c:v");
        reveal_strlit("libvpx-vp9");
        reveal_strlit("libx264");
        reveal_strlit("yuv420p");
        reveal_strlit("-crf");
        reveal_strlit("-b:v");
        reveal_strlit("0");
        reveal_strlit("-movflags");
        reveal_strlit("+faststart");
        reveal_strlit("file:");
    }
    let mut size = String::new();
    append_decimal(&mut size, config.size.width as u64);
    size.append("x");
    append_decimal(&mut size, config.size.height as u64);
    let mut fps = String::new();
    append_decimal(&mut fps, config.fps.num() as u64);
    fps.append("/");
    append_decimal(&mut fps, config.fps.den() as u64);
    let mut args: Vec<String> = Vec::new();
    push_str(&mut args, "-hide_banner");
    push_str(&mut args, "-y");
    push_str(&mut args, "-f");
    push_str(&mut args, "rawvideo");
    push_str(&mut args, "-pix_fmt");
    push_str(&mut args, "rgba");
    push_str(&mut args, "-s");
    push_string(&mut args, size);
    push_str(&mut args, "-r");
    push_string(&mut args, fps);
    push_str(&mut args, "-i");
    push_str(&mut args, "-");
    let ghost head = strings_of(args@);
    match config.format {
        OutputFormat::WebM => {
            push_str(&mut args, "-c:v");
            push_str(&mut args, VP9_ENCODER);
            push_str(&mut args, "-pix_fmt");
            push_str(&mut args, "yuv420p");
            push_str(&mut args, "-crf");
            push_string(&mut args, decimal_string(config.quality as u64));
            push_str(&mut args, "-b:v");
            push_str(&mut args, "0");
        },
        OutputFormat::Mp4 => {
            push_str(&mut args, "-c:v");
            push_str(&mut args, H264_ENCODER);
            push_str(&mut args, "-pix_fmt");
            push_str(&mut args, "yuv420p");
            push_str(&mut args, "-crf");
            push_string(&mut args, decimal_string(config.quality as u64));
            push_str(&mut args, "-movflags");
            push_str(&mut args, "+faststart");
        },
        _ => {},
    }
    let mut out = String::from_str("file:");
    out.append(config.path.as_str());
    push_string(&mut args, out);
    proof {
        assert(strings_of(args@) =~= ffmpeg_args_spec(config@));
    }
    args
}

/// A text that is not `-crf`: any text whose first character is not `-`, or
/// whose second is not `c`, or that is not four characters long.
proof fn lemma_not_crf(t: Seq<char>)
    requires
        t.len() == 0 || t[0] != '-' || t.len() != 4 || t[1] != 'c' || t[2] != 'r',
    ensures
        t != "-crf"@,
{
    reveal_strlit("-crf");
    if t == "-crf"@ {
        assert(t[0] == '-' && t[1] == 'c' && t[2] == 'r' && t.len() == 4);
    }
}

/// The quality reaches the encoder: for a WebM or MP4 encode the argument list
/// holds `-crf`, and every `-crf` in it is followed by the decimal text of the
/// configured quality.
pub proof fn lemma_crf_carries_the_quality(c: OutputView)
    requires
        c.format == OutputFormat::WebM || c.format == OutputFormat::Mp4,
    ensures
        ffmpeg_args_spec(c).contains("-crf"@),
        forall|i: int|
            0 <= i < ffmpeg_args_spec(c).len() - 1 && #[trigger] ffmpeg_args_spec(c)[i] == "-crf"@
                ==> ffmpeg_args_spec(c)[i + 1] == decimal(c.quality as nat),
{
    let a = ffmpeg_args_spec(c);
    reveal_strlit("-hide_banner");
    reveal_strlit("-y");
    reveal_strlit("-f");
    reveal_strlit("rawvideo");
    reveal_strlit("-pix_fmt");
    reveal_strlit("rgba");
    reveal_strlit("-s");
    reveal_strlit("x");
    reveal_strlit("-r");
    reveal_strlit("/");
    reveal_strlit("-i");
    reveal_strlit("-");
    reveal_strlit("-c:v");
    reveal_strlit("libvpx-vp9");
    reveal_strlit("libx264");
    reveal_strlit("yuv420p");
    reveal_strlit("-crf");
    reveal_strlit("-b:v");
    reveal_strlit("0");
    reveal_strlit("-movflags");
    reveal_strlit("+faststart");
    reveal_strlit("file:");
    lemma_decimal_digits(c.size.width as nat);
    lemma_decimal_digits(c.fps.0 as nat);
    lemma_decimal_digits(c.quality as nat);
    assert(a.len() == 21);
    assert(a[16] == "-crf"@);
    assert(a.contains("-crf"@));
    assert forall|i: int| 0 <= i < a.len() - 1 && #[trigger] a[i] == "-crf"@ implies a[i + 1] == decimal(
        c.quality as nat,
    ) by {
        if i != 16 {
            let t = a[i];
            if i == 7 {
                assert(t[0] == decimal(c.size.width as nat)[0]);
            } else if i == 9 {
                assert(t[0] == decimal(c.fps.0 as nat)[0]);
            } else if i == 17 {
                assert(t[0] == decimal(c.quality as nat)[0]);
            }
            lemma_not_crf(t);
        }
    }
}

} // verus!
