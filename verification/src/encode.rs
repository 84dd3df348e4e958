//! Streaming encoders: what they decide before, during and after a render. The
//! PNG sequence encoder's bytes come from the `png` crate; the caller owns the
//! file system and the FFmpeg process.
use crate::config::{OutputConfig, OutputFormat};
use crate::ffmpeg::{ffmpeg_message, FfmpegError};
use crate::frame::Frame;
use crate::geom::Size;
use crate::paths::{join_path, joined};
use crate::text::{append_decimal, decimal, decimal_string, lemma_decimal_digits, lemma_decimal_len, str_chars};
use crate::time::pow10;
use vstd::prelude::*;

verus! {

/// Width of the zero-padded frame index in output file names, e.g. `000001.png`.
/// Six digits cover sequences up to 999,999 frames without the name length
/// changing partway through an encode.
pub const FRAME_INDEX_WIDTH: usize = 6;

/// Everything an encoder can fail with.
#[derive(Debug, Clone, PartialEq, Eq)]
pub enum EncodeError {
    /// Writing `path` failed; `message` is the operating system's account of why.
    Io { path: String, message: String },
    OutputExists { path: String },
    FrameSizeMismatch { expected: Size, got: Size },
    Png(String),
    Ffmpeg(String),
    UnsupportedFormat(&'static str),
}

/// `Size`'s debug form, as the messages print it.
pub open spec fn size_text(s: Size) -> Seq<char> {
    "Size { width: "@ + decimal(s.width as nat) + ", height: "@ + decimal(s.height as nat) + " }"@
}

/// The message each encode error reads as.
pub open spec fn encode_message(e: EncodeError) -> Seq<char> {
    match e {
        EncodeError::Io { path, message } => "cannot write `"@ + path@ + "`: "@ + message@,
        EncodeError::OutputExists { path } => "`"@ + path@
            + "` already exists; pass --overwrite to replace it"@,
        EncodeError::FrameSizeMismatch { expected, got } => "frame is "@ + size_text(got)
            + " but the encoder was configured for "@ + size_text(expected),
        EncodeError::Png(m) => "png encoding failed: "@ + m@,
        EncodeError::Ffmpeg(m) => "ffmpeg: "@ + m@,
        EncodeError::UnsupportedFormat(f) => "output format "@ + f@ + " is not supported yet"@,
    }
}

/// Appends `Size`'s debug form to `s`.
pub fn append_size(s: &mut String, size: Size)
    ensures
        final(s)@ == old(s)@ + size_text(size),
{
    proof {
        reveal_strlit("Size { width: ");
        reveal_strlit(", height: ");
        reveal_strlit(" }");
    }
    s.append("Size { width: ");
    append_decimal(s, size.width as u64);
    s.append(", height: ");
    append_decimal(s, size.height as u64);
    s.append(" }");
    proof {
        assert(s@ =~= old(s)@ + size_text(size));
    }
}

impl EncodeError {
    /// The error as a sentence, the way it is reported.
    pub fn message(&self) -> (m: String)
        ensures
            m@ == encode_message(*self),
    {
        match self {
            EncodeError::Io { path, message } => {
                let mut m = String::from_str("cannot write `");
                m.append(path.as_str());
                m.append("`: ");
                m.append(message.as_str());
                proof {
                    reveal_strlit("cannot write `");
                    reveal_strlit("`: ");
                    assert(m@ =~= encode_message(*self));
                }
                m
            },
            EncodeError::OutputExists { path } => {
                let mut m = String::from_str("`");
                m.append(path.as_str());
                m.append("` already exists; pass --overwrite to replace it");
                proof {
                    reveal_strlit("`");
                    reveal_strlit("` already exists; pass --overwrite to replace it");
                    assert(m@ =~= encode_message(*self));
                }
                m
            },
            EncodeError::FrameSizeMismatch { expected, got } => {
                let mut m = String::from_str("frame is ");
                append_size(&mut m, *got);
                m.append(" but the encoder was configured for ");
                append_size(&mut m, *expected);
                proof {
                    reveal_strlit("frame is ");
                    reveal_strlit(" but the encoder was configured for ");
                    assert(m@ =~= encode_message(*self));
                }
                m
            },
            EncodeError::Png(t) => {
                let mut m = String::from_str("png encoding failed: ");
                m.append(t.as_str());
                proof {
                    reveal_strlit("png encoding failed: ");
                    assert(m@ =~= encode_message(*self));
                }
                m
            },
            EncodeError::Ffmpeg(t) => {
                let mut m = String::from_str("ffmpeg: ");
                m.append(t.as_str());
                proof {
                    reveal_strlit("ffmpeg: ");
                    assert(m@ =~= encode_message(*self));
                }
                m
            },
            EncodeError::UnsupportedFormat(f) => {
                let mut m = String::from_str("output format ");
                m.append(*f);
                m.append(" is not supported yet");
                proof {
                    reveal_strlit("output format ");
                    reveal_strlit(" is not supported yet");
                    assert(m@ =~= encode_message(*self));
                }
                m
            },
        }
    }
}

/// Streaming encoder interface: frames are pushed one at a time and released
/// immediately, so peak memory never scales with the frame count. Encoders
/// write files or drive a subprocess, so their implementations live with the
/// caller; what they decide is in this module.
pub trait Encoder {
    fn begin(&mut self, config: &OutputConfig) -> Result<(), EncodeError>;

    fn push_frame(&mut self, frame: &Frame) -> Result<(), EncodeError>;

    fn finish(&mut self) -> Result<(), EncodeError>;
}

/// Which encoder an output format is written by.
#[derive(Debug, Clone, Copy, PartialEq, Eq, Structural)]
pub enum EncoderKind {
    /// A directory of numbered PNG files.
    PngSequence,
    /// A video file encoded by an FFmpeg subprocess.
    Ffmpeg,
}

pub open spec fn encoder_for_spec(format: OutputFormat) -> Result<EncoderKind, EncodeError> {
    match format {
        OutputFormat::Png => Ok(EncoderKind::PngSequence),
        OutputFormat::WebM | OutputFormat::Mp4 => Ok(EncoderKind::Ffmpeg),
        OutputFormat::Gif => Err(EncodeError::UnsupportedFormat("gif")),
    }
}

/// Picks the encoder for `config`'s format: PNG sequences are written directly,
/// WebM and MP4 go through FFmpeg, and GIF is not supported yet.
pub fn encoder_for(config: &OutputConfig) -> (r: Result<EncoderKind, EncodeError>)
    ensures
        r == encoder_for_spec(config.format),
{
    match config.format {
        OutputFormat::Png => Ok(EncoderKind::PngSequence),
        OutputFormat::WebM | OutputFormat::Mp4 => Ok(EncoderKind::Ffmpeg),
        OutputFormat::Gif => Err(EncodeError::UnsupportedFormat("gif")),
    }
}

/// The size check every encoder makes on each pushed frame.
pub open spec fn frame_size_check(expected: Size, width: u32, height: u32) -> Result<(), EncodeError> {
    if width != expected.width || height != expected.height {
        Err(EncodeError::FrameSizeMismatch { expected, got: Size { width, height } })
    } else {
        Ok(())
    }
}

/// Refuses a frame whose size differs from the one the encoder was configured for.
pub fn check_frame_size(expected: Size, frame: &Frame) -> (r: Result<(), EncodeError>)
    ensures
        r == frame_size_check(expected, frame@.width, frame@.height),
{
    if frame.width() != expected.width || frame.height() != expected.height {
        Err(
            EncodeError::FrameSizeMismatch {
                expected,
                got: Size { width: frame.width(), height: frame.height() },
            },
        )
    } else {
        Ok(())
    }
}

/// `s` left-padded with `0` to at least `width` characters.
pub open spec fn zero_padded(s: Seq<char>, width: nat) -> Seq<char> {
    if s.len() < width {
        Seq::new((width - s.len()) as nat, |i: int| '0') + s
    } else {
        s
    }
}

/// The file name of the `index`-th frame (counting from one), e.g. `000042.png`.
pub open spec fn frame_file_name_spec(index: nat) -> Seq<char> {
    zero_padded(decimal(index), FRAME_INDEX_WIDTH as nat) + ".png"@
}

/// The file name of the `index`-th frame, e.g. `000042.png`.
pub fn frame_file_name(index: u64) -> (s: String)
    ensures
        s@ == frame_file_name_spec(index as nat),
{
    let digits = decimal_string(index);
    let n = str_chars(digits.as_str()).len();
    let mut s = String::new();
    let mut k: usize = n;
    let ghost pad: Seq<char> = if n < FRAME_INDEX_WIDTH {
        Seq::new((FRAME_INDEX_WIDTH - n) as nat, |i: int| '0')
    } else {
        Seq::empty()
    };
    proof {
        reveal_strlit("0");
        reveal_strlit("");
        assert(s@ =~= Seq::<char>::empty());
    }
    while k < FRAME_INDEX_WIDTH
        invariant
            n <= k,
            k <= FRAME_INDEX_WIDTH || k == n,
            n < FRAME_INDEX_WIDTH ==> s@ =~= Seq::new((k - n) as nat, |i: int| '0'),
            n >= FRAME_INDEX_WIDTH ==> s@.len() == 0,
        decreases FRAME_INDEX_WIDTH - k,
    {
        proof {
            reveal_strlit("0");
        }
        s.append("0");
        k = k + 1;
        proof {
            assert(s@ =~= Seq::new((k - n) as nat, |i: int| '0'));
        }
    }
    s.append(digits.as_str());
    s.append(".png");
    proof {
        reveal_strlit(".png");
        assert(s@ =~= frame_file_name_spec(index as nat));
    }
    s
}

pub open spec fn is_digit(c: char) -> bool {
    '0' <= c && c <= '9'
}

/// Whether `name` has the exact shape this encoder writes: six ASCII digits,
/// then `.png`.
pub open spec fn is_frame_file_name_spec(name: Seq<char>) -> bool {
    &&& name.len() == FRAME_INDEX_WIDTH + 4
    &&& name.subrange(FRAME_INDEX_WIDTH as int, name.len() as int) == ".png"@
    &&& forall|i: int| 0 <= i < FRAME_INDEX_WIDTH ==> is_digit(#[trigger] name[i])
}

/// True for names of the exact shape this encoder writes (six ASCII digits, then
/// `.png`), so that clearing a directory before an `--overwrite` render leaves
/// every other file alone.
pub fn is_frame_file_name(name: &str) -> (r: bool)
    ensures
        r == is_frame_file_name_spec(name@),
{
    proof {
        reveal_strlit(".png");
    }
    let s = str_chars(name);
    if s.len() != FRAME_INDEX_WIDTH + 4 {
        return false;
    }
    let mut i: usize = 0;
    while i < FRAME_INDEX_WIDTH
        invariant
            i <= FRAME_INDEX_WIDTH,
            s@ == name@,
            s@.len() == FRAME_INDEX_WIDTH + 4,
            forall|j: int| 0 <= j < i ==> is_digit(#[trigger] s@[j]),
        decreases FRAME_INDEX_WIDTH - i,
    {
        if !(s[i] >= '0' && s[i] <= '9') {
            return false;
        }
        i = i + 1;
    }
    let ok = s[6] == '.' && s[7] == 'p' && s[8] == 'n' && s[9] == 'g';
    proof {
        let tail = s@.subrange(6, 10);
        if ok {
            assert(tail =~= ".png"@);
        } else {
            assert(tail != ".png"@) by {
                if tail == ".png"@ {
                    assert(tail[0] == '.' && tail[1] == 'p' && tail[2] == 'n' && tail[3] == 'g');
                }
            }
        }
    }
    ok
}

/// Names the bytes the `png` crate writes for an 8-bit RGBA image of the given
/// size and pixel data: the encoded file, or the crate's error message.
pub uninterp spec fn png_rgba8(width: u32, height: u32, data: Seq<u8>) -> Result<Seq<u8>, Seq<char>>;

/// Encodes one straight-alpha RGBA8 image as a PNG file in memory with the
/// `png` crate (`Encoder::new`, `set_color(Rgba)`, `set_depth(Eight)`,
/// `write_header`, `Writer::write_image_data`, `Writer::finish`). Claimed: the
/// outcome is named by the size and pixels alone; writing into memory cannot
/// fail, so the crate refuses only a zero width or height or a buffer that is not
/// `4 * width * height` bytes, and otherwise succeeds. The bytes themselves are
/// not stated. The crate computes the buffer size it expects in a `usize`, hence
/// the bound.
#[verifier::external_body]
fn encode_png(width: u32, height: u32, data: &[u8]) -> (r: Result<Vec<u8>, String>)
    requires
        width * height * 4 <= usize::MAX,
    ensures
        match r {
            Ok(bytes) => png_rgba8(width, height, data@) == Ok::<Seq<u8>, Seq<char>>(bytes@),
            Err(m) => png_rgba8(width, height, data@) == Err::<Seq<u8>, Seq<char>>(m@),
        },
        width > 0 && height > 0 && data@.len() == width * height * 4 ==> r is Ok,
        r is Ok ==> width > 0 && height > 0,
{
    let mut out: Vec<u8> = Vec::new();
    let mut encoder = png::Encoder::new(&mut out, width, height);
    encoder.set_color(png::ColorType::Rgba);
    encoder.set_depth(png::BitDepth::Eight);
    let mut writer = match encoder.write_header() {
        Ok(writer) => writer,
        Err(err) => return Err(err.to_string()),
    };
    if let Err(err) = writer.write_image_data(data) {
        return Err(err.to_string());
    }
    match writer.finish() {
        Ok(()) => Ok(out),
        Err(err) => Err(err.to_string()),
    }
}

/// One encoded frame of a PNG sequence: where it goes and what it holds.
#[derive(Debug, Clone, PartialEq, Eq)]
pub struct PngFile {
    pub path: String,
    pub bytes: Vec<u8>,
}

/// Writes a numbered PNG per frame into the directory `OutputConfig.path`.
///
/// This type decides names, order and content; the caller creates the directory,
/// clears stale frames and writes each returned file.
#[derive(Debug, Clone, PartialEq, Eq)]
pub struct PngSequenceEncoder {
    dir: String,
    size: Size,
    index: u64,
}

/// What the PNG sequence encoder owes its caller once it has started: the
/// directory, the frame size and how many frames were handed out.
pub struct PngSequenceView {
    pub dir: Seq<char>,
    pub size: Size,
    pub index: nat,
}

impl View for PngSequenceEncoder {
    type V = PngSequenceView;

    closed spec fn view(&self) -> PngSequenceView {
        PngSequenceView { dir: self.dir@, size: self.size, index: self.index as nat }
    }
}

/// The decision `begin` makes once the caller has looked at the output directory:
/// without `--overwrite`, a directory that already holds something is refused.
pub open spec fn png_begin_check(overwrite: bool, path: Seq<char>, occupied: bool) -> bool {
    overwrite || !occupied
}

impl PngSequenceEncoder {
    pub fn new() -> (e: PngSequenceEncoder)
        ensures
            e@.dir == Seq::<char>::empty(),
            e@.size == (Size { width: 0, height: 0 }),
            e@.index == 0,
    {
        proof {
            reveal_strlit("");
        }
        PngSequenceEncoder { dir: String::new(), size: Size { width: 0, height: 0 }, index: 0 }
    }

    /// How many frames have been handed out since `begin`.
    pub fn frames_written(&self) -> (n: u64)
        ensures
            n == self@.index,
    {
        self.index
    }

    /// Starts a new sequence in `config.path`. `occupied` says whether that
    /// directory already exists and holds at least one entry; without
    /// `overwrite` such a directory is refused and the encoder is left as it was.
    /// On success the caller creates the directory and, with `overwrite`, removes
    /// the files that `is_frame_file_name` recognises.
    pub fn begin(&mut self, config: &OutputConfig, occupied: bool) -> (r: Result<(), EncodeError>)
        ensures
            r is Ok <==> png_begin_check(config.overwrite, config.path@, occupied),
            r matches Err(e) ==> e == (EncodeError::OutputExists { path: config.path })
                && final(self)@ == old(self)@,
            r is Ok ==> final(self)@ == (PngSequenceView {
                dir: config.path@,
                size: config.size,
                index: 0,
            }),
    {
        if !config.overwrite && occupied {
            return Err(EncodeError::OutputExists { path: config.path.clone() });
        }
        self.dir = config.path.clone();
        self.size = config.size;
        self.index = 0;
        Ok(())
    }

    /// Encodes the next frame: refuses a frame of the wrong size, else counts it
    /// and returns the path of its numbered file and the PNG bytes to write there.
    pub fn push_frame(&mut self, frame: &Frame) -> (r: Result<PngFile, EncodeError>)
        requires
            old(self)@.index < u64::MAX,
            frame.wf(),
        ensures
            frame_size_check(old(self)@.size, frame@.width, frame@.height) is Ok && frame@.width > 0
                && frame@.height > 0 ==> r is Ok,
            r is Ok <==> frame_size_check(old(self)@.size, frame@.width, frame@.height) is Ok
                && png_rgba8(frame@.width, frame@.height, frame@.bytes) is Ok,
            r matches Ok(f) ==> f.path@ == joined(
                old(self)@.dir,
                frame_file_name_spec(old(self)@.index + 1),
            ) && png_rgba8(frame@.width, frame@.height, frame@.bytes) == Ok::<
                Seq<u8>,
                Seq<char>,
            >(f.bytes@),
            r matches Err(e) ==> frame_size_check(old(self)@.size, frame@.width, frame@.height)
                == Err::<(), EncodeError>(e) || (e matches EncodeError::Png(m)
                && png_rgba8(frame@.width, frame@.height, frame@.bytes) == Err::<
                Seq<u8>,
                Seq<char>,
            >(m@)),
            frame_size_check(old(self)@.size, frame@.width, frame@.height) is Ok ==> final(self)@ == (PngSequenceView { index: old(self)@.index + 1, ..old(self)@ }),
            frame_size_check(old(self)@.size, frame@.width, frame@.height) is Err ==> final(self)@
                == old(self)@,
    {
        match check_frame_size(self.size, frame) {
            Err(e) => return Err(e),
            Ok(()) => {},
        }
        self.index = self.index + 1;
        let name = frame_file_name(self.index);
        let path = join_path(self.dir.as_str(), name.as_str());
        let data = frame.data();
        let byte_count: usize = data.len();
        proof {
            frame.lemma_wf();
            assert(frame@.width * frame@.height * 4 == byte_count);
        }
        match encode_png(frame.width(), frame.height(), data) {
            Ok(bytes) => Ok(PngFile { path, bytes }),
            Err(m) => Err(EncodeError::Png(m)),
        }
    }
}

/// Why an FFmpeg encode refuses transparent output.
pub open spec fn transparent_refusal() -> Seq<char> {
    "transparent output is not supported yet (WebM/MP4 alpha lands in a later milestone)"@
}

/// What starting an FFmpeg encode decides before the process is spawned, given
/// whether `config.path` already exists: transparent output is refused (alpha is
/// not supported yet), an existing file is refused without `--overwrite`, and
/// otherwise the answer is whether this encode owns the output file, that is
/// whether it did not exist before: only such a file is ever removed after a
/// failure.
pub fn ffmpeg_begin(config: &OutputConfig, exists: bool) -> (r: Result<bool, EncodeError>)
    ensures
        config.transparent ==> (r matches Err(EncodeError::Ffmpeg(m)) && m@
            == transparent_refusal()),
        !config.transparent && !config.overwrite && exists ==> r == Err::<bool, EncodeError>(
            EncodeError::OutputExists { path: config.path },
        ),
        !config.transparent && (config.overwrite || !exists) ==> r == Ok::<bool, EncodeError>(
            !exists,
        ),
{
    if config.transparent {
        proof {
            reveal_strlit(
                "transparent output is not supported yet (WebM/MP4 alpha lands in a later milestone)",
            );
        }
        return Err(
            EncodeError::Ffmpeg(
                String::from_str(
                    "transparent output is not supported yet (WebM/MP4 alpha lands in a later milestone)",
                ),
            ),
        );
    }
    if !config.overwrite && exists {
        return Err(EncodeError::OutputExists { path: config.path.clone() });
    }
    Ok(!exists)
}

/// The encode error for an FFmpeg binary that could not be found or started.
pub fn discovery_failure(err: &FfmpegError) -> (e: EncodeError)
    ensures
        e matches EncodeError::Ffmpeg(m) && m@ == ffmpeg_message(*err),
{
    EncodeError::Ffmpeg(err.message())
}

/// The encode error for an FFmpeg process that exited with `status`; its
/// standard error is the only useful diagnostic, so it is never dropped.
pub fn exit_failure(status: &str, stderr: &str) -> (e: EncodeError)
    ensures
        e matches EncodeError::Ffmpeg(m) && m@ == "ffmpeg exited with "@ + status@ + ":\n"@
            + stderr@,
{
    let mut m = String::from_str("ffmpeg exited with ");
    m.append(status);
    m.append(":\n");
    m.append(stderr);
    proof {
        reveal_strlit("ffmpeg exited with ");
        reveal_strlit(":\n");
    }
    EncodeError::Ffmpeg(m)
}

/// The encode error for an FFmpeg process that closed its input early but still
/// exited successfully: whatever it wrote is incomplete.
pub fn early_close_failure() -> (e: EncodeError)
    ensures
        e matches EncodeError::Ffmpeg(m) && m@
            == "ffmpeg's stdin pipe closed unexpectedly, but it exited successfully"@,
{
    proof {
        reveal_strlit("ffmpeg's stdin pipe closed unexpectedly, but it exited successfully");
    }
    EncodeError::Ffmpeg(
        String::from_str("ffmpeg's stdin pipe closed unexpectedly, but it exited successfully"),
    )
}


/// Every name the encoder gives a frame numbered 1 to 999,999 is one that
/// `is_frame_file_name` recognises, so clearing stale frames before an
/// `--overwrite` render removes them all; from 1,000,000 on the index takes a
/// seventh digit and the name no longer has the recognised shape.
pub proof fn lemma_frame_names_are_recognised(index: nat)
    requires
        1 <= index <= 999_999,
    ensures
        is_frame_file_name_spec(frame_file_name_spec(index)),
{
    lemma_decimal_digits(index);
    assert(pow10(6) == 1_000_000) by {
        reveal_with_fuel(pow10, 7);
    }
    lemma_decimal_len(index, 6);
    let d = decimal(index);
    let name = frame_file_name_spec(index);
    let pad = Seq::new((FRAME_INDEX_WIDTH - d.len()) as nat, |i: int| '0');
    assert(zero_padded(d, 6) == pad + d);
    assert(name.subrange(6, 10) =~= ".png"@) by {
        reveal_strlit(".png");
    }
    assert forall|i: int| 0 <= i < 6 implies is_digit(#[trigger] name[i]) by {
        reveal_strlit(".png");
        if i < pad.len() {
            assert(name[i] == pad[i]);
        } else {
            assert(name[i] == d[i - pad.len()]);
        }
    }
    reveal_strlit(".png");
}

} // verus!
