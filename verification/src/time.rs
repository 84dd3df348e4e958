//! Virtual time, exact rational frame rates, and duration errors.
use vstd::prelude::*;

verus! {

/// A point in, or span of, virtual time. Nanosecond resolution.
///
/// Frame scheduling uses integer arithmetic exclusively so that timing is
/// identical on every platform.
#[derive(Debug, Clone, Copy, PartialEq, Eq, PartialOrd, Ord, Hash, Default, Structural)]
pub struct Time(pub u64);

/// `a + b`, clamped to `u64::MAX`.
pub open spec fn sat_add(a: int, b: int) -> u64 {
    if a + b > u64::MAX {
        u64::MAX
    } else {
        (a + b) as u64
    }
}

/// `a * b`, clamped to `u64::MAX`.
pub open spec fn sat_mul(a: int, b: int) -> u64 {
    if a * b > u64::MAX {
        u64::MAX
    } else {
        (a * b) as u64
    }
}

/// `a * b`, clamped to `u64::MAX` (`u64::saturating_mul`).
pub fn saturating_mul_u64(a: u64, b: u64) -> (r: u64)
    ensures
        r == sat_mul(a as int, b as int),
{
    match a.checked_mul(b) {
        Some(v) => v,
        None => u64::MAX,
    }
}

impl Time {
    pub fn zero() -> (t: Time)
        ensures
            t.0 == 0,
    {
        Time(0)
    }

    pub fn from_nanos(n: u64) -> (t: Time)
        ensures
            t.0 == n,
    {
        Time(n)
    }

    pub fn from_millis(ms: u64) -> (t: Time)
        ensures
            t.0 == sat_mul(ms as int, 1_000_000),
    {
        Time(saturating_mul_u64(ms, 1_000_000))
    }

    pub fn as_nanos(self) -> (n: u64)
        ensures
            n == self.0,
    {
        self.0
    }

    pub fn as_millis(self) -> (n: u64)
        ensures
            n == self.0 / 1_000_000,
    {
        self.0 / 1_000_000
    }

    pub fn saturating_add(self, other: Time) -> (t: Time)
        ensures
            t.0 == sat_add(self.0 as int, other.0 as int),
    {
        Time(self.0.saturating_add(other.0))
    }

    pub fn saturating_sub(self, other: Time) -> (t: Time)
        ensures
            t.0 == (if self.0 >= other.0 {
                self.0 - other.0
            } else {
                0
            }),
    {
        Time(self.0.saturating_sub(other.0))
    }

    pub fn saturating_mul(self, factor: u64) -> (t: Time)
        ensures
            t.0 == sat_mul(self.0 as int, factor as int),
    {
        Time(saturating_mul_u64(self.0, factor))
    }
}

/// Frame rate as an exact rational, so 30000/1001 is representable.
#[derive(Debug, Clone, Copy, PartialEq, Eq, Hash)]
pub struct Fps {
    num: u32,
    den: u32,
}

impl Fps {
    #[verifier::type_invariant]
    spec fn positive(self) -> bool {
        self.num > 0 && self.den > 0
    }

    pub closed spec fn num_spec(self) -> u32 {
        self.num
    }

    pub closed spec fn den_spec(self) -> u32 {
        self.den
    }

    /// A frame rate is its numerator and denominator: two rates with the same
    /// terms are the same rate.
    pub proof fn lemma_terms_determine(a: Fps, b: Fps)
        requires
            a.num_spec() == b.num_spec(),
            a.den_spec() == b.den_spec(),
        ensures
            a == b,
    {
    }

    /// Returns `None` if either term is zero.
    pub fn new(num: u32, den: u32) -> (r: Option<Fps>)
        ensures
            (num == 0 || den == 0) <==> r is None,
            r matches Some(f) ==> f.num_spec() == num && f.den_spec() == den,
    {
        if num == 0 || den == 0 {
            None
        } else {
            Some(Fps { num, den })
        }
    }

    /// `fps` frames per second; a zero is clamped to 1.
    pub fn from_integer(fps: u32) -> (f: Fps)
        ensures
            f.num_spec() == (if fps == 0 {
                1
            } else {
                fps
            }),
            f.den_spec() == 1,
    {
        let num = if fps == 0 {
            1
        } else {
            fps
        };
        Fps { num, den: 1 }
    }

    pub fn num(self) -> (n: u32)
        ensures
            n == self.num_spec(),
            n > 0,
    {
        proof {
            use_type_invariant(&self);
        }
        self.num
    }

    pub fn den(self) -> (d: u32)
        ensures
            d == self.den_spec(),
            d > 0,
    {
        proof {
            use_type_invariant(&self);
        }
        self.den
    }

    /// Exact timestamp of frame `n`: `n * 1e9 * den / num`, truncated (and, past
    /// `u64::MAX`, wrapped as `as u64` does).
    pub fn frame_time(self, n: u64) -> (t: Time)
        ensures
            t.0 == frame_time_spec(self, n),
    {
        proof {
            use_type_invariant(&self);
            assert(n * 1_000_000_000 * self.den <= u64::MAX * 1_000_000_000 * u32::MAX)
                by (nonlinear_arith)
                requires
                    n <= u64::MAX,
                    self.den <= u32::MAX,
            ;
        }
        let scaled = (n as u128) * 1_000_000_000u128 * (self.den as u128) / (self.num as u128);
        Time(scaled as u64)
    }

    /// Number of frames needed to cover `duration`, rounding up.
    pub fn frame_count(self, duration: Time) -> (c: u64)
        ensures
            c == frame_count_spec(self, duration),
    {
        proof {
            use_type_invariant(&self);
            assert(duration.0 * self.num <= u64::MAX * u32::MAX) by (nonlinear_arith)
                requires
                    duration.0 <= u64::MAX,
                    self.num <= u32::MAX,
            ;
            assert(1_000_000_000 * self.den <= 1_000_000_000 * u32::MAX) by (nonlinear_arith)
                requires
                    self.den <= u32::MAX,
            ;
        }
        let num = (duration.as_nanos() as u128) * (self.num as u128);
        let den = 1_000_000_000u128 * (self.den as u128);
        ((num + den - 1) / den) as u64
    }
}

/// `n * 1e9 * den / num`, as `frame_time` computes it.
pub open spec fn frame_time_spec(f: Fps, n: u64) -> u64 {
    ((n * 1_000_000_000 * f.den_spec()) / (f.num_spec() as int)) as u64
}

/// `ceil(duration * num / (1e9 * den))`, as `frame_count` computes it.
pub open spec fn frame_count_spec(f: Fps, d: Time) -> u64 {
    let den = 1_000_000_000 * f.den_spec();
    ((d.0 * f.num_spec() + den - 1) / den) as u64
}

/// Why a duration text was rejected.
#[derive(Debug, Clone, Copy, PartialEq, Eq, Structural)]
pub enum DurationFault {
    Empty,
    MissingUnit,
    UnknownUnit,
    InvalidNumber,
    Negative,
}

#[derive(Debug, Clone, PartialEq, Eq)]
pub enum DurationParseError {
    Empty,
    MissingUnit(String),
    UnknownUnit(String),
    InvalidNumber(String),
    Negative(String),
}

impl DurationParseError {
    pub open spec fn fault(&self) -> DurationFault {
        match self {
            DurationParseError::Empty => DurationFault::Empty,
            DurationParseError::MissingUnit(_) => DurationFault::MissingUnit,
            DurationParseError::UnknownUnit(_) => DurationFault::UnknownUnit,
            DurationParseError::InvalidNumber(_) => DurationFault::InvalidNumber,
            DurationParseError::Negative(_) => DurationFault::Negative,
        }
    }

    pub open spec fn text(&self) -> Seq<char> {
        match self {
            DurationParseError::Empty => Seq::empty(),
            DurationParseError::MissingUnit(t) => t@,
            DurationParseError::UnknownUnit(t) => t@,
            DurationParseError::InvalidNumber(t) => t@,
            DurationParseError::Negative(t) => t@,
        }
    }

    /// The human-readable message for this error.
    pub fn message(&self) -> (m: String)
        ensures
            m@ == duration_error_message(self.fault(), self.text()),
    {
        proof {
            reveal_strlit("duration is empty");
            reveal_strlit("duration `");
            reveal_strlit("` is missing a unit (expected ms, s, or m)");
            reveal_strlit("duration unit `");
            reveal_strlit("` is not one of ms, s, m");
            reveal_strlit("`");
            reveal_strlit("` is not a valid number");
            reveal_strlit("` must not be negative");
        }
        let (head, t, tail) = match self {
            DurationParseError::Empty => {
                return String::from_str("duration is empty");
            },
            DurationParseError::MissingUnit(t) => (
                "duration `",
                t,
                "` is missing a unit (expected ms, s, or m)",
            ),
            DurationParseError::UnknownUnit(t) => ("duration unit `", t, "` is not one of ms, s, m"),
            DurationParseError::InvalidNumber(t) => ("`", t, "` is not a valid number"),
            DurationParseError::Negative(t) => ("duration `", t, "` must not be negative"),
        };
        let mut m = String::from_str(head);
        m.append(t.as_str());
        m.append(tail);
        m
    }
}

pub open spec fn duration_error_message(f: DurationFault, t: Seq<char>) -> Seq<char> {
    match f {
        DurationFault::Empty => "duration is empty"@,
        DurationFault::MissingUnit => "duration `"@ + t + "` is missing a unit (expected ms, s, or m)"@,
        DurationFault::UnknownUnit => "duration unit `"@ + t + "` is not one of ms, s, m"@,
        DurationFault::InvalidNumber => "`"@ + t + "` is not a valid number"@,
        DurationFault::Negative => "duration `"@ + t + "` must not be negative"@,
    }
}

/// `char::is_ascii_digit`.
pub open spec fn is_digit(c: char) -> bool {
    '0' <= c && c <= '9'
}

pub open spec fn pow10(n: nat) -> nat
    decreases n,
{
    if n == 0 {
        1
    } else {
        10 * pow10((n - 1) as nat)
    }
}


/// The frame count covers a duration exactly: every counted frame starts
/// before the duration ends, and the first frame past the count starts at or
/// after its end. This holds wherever the count itself fits in a `u64`.
pub proof fn lemma_frame_count_covers(f: Fps, d: Time, k: u64)
    requires
        f.num_spec() > 0,
        f.den_spec() > 0,
        (d.0 * f.num_spec() + 1_000_000_000 * f.den_spec() - 1) / (1_000_000_000
            * f.den_spec()) <= u64::MAX,
    ensures
        k < frame_count_spec(f, d) ==> frame_time_spec(f, k) < d.0,
        k >= frame_count_spec(f, d) ==> (k * 1_000_000_000 * f.den_spec()) / (f.num_spec() as int)
            >= d.0,
{
    let n = f.num_spec() as int;
    let dd = 1_000_000_000 * f.den_spec();
    let x = d.0 * n;
    let c = (x + dd - 1) / dd;
    assert(c * dd <= x + dd - 1 && x + dd - 1 < (c + 1) * dd) by (nonlinear_arith)
        requires
            dd > 0,
            c == (x + dd - 1) / dd,
            x >= 0,
    ;
    assert(k * 1_000_000_000 * f.den_spec() == k * dd) by (nonlinear_arith)
        requires
            dd == 1_000_000_000 * f.den_spec(),
    ;
    if k < c {
        assert(k * dd < x) by (nonlinear_arith)
            requires
                k + 1 <= c,
                c * dd <= x + dd - 1,
                dd > 0,
        ;
        assert((k * dd) / n < d.0) by (nonlinear_arith)
            requires
                k * dd < d.0 * n,
                n > 0,
                k >= 0,
                dd > 0,
        ;
    } else {
        assert(k * dd >= x) by (nonlinear_arith)
            requires
                k >= c,
                x + dd - 1 < (c + 1) * dd,
                dd > 0,
        ;
        assert((k * dd) / n >= d.0) by (nonlinear_arith)
            requires
                k * dd >= d.0 * n,
                n > 0,
        ;
    }
}

/// The frame times around the count: the last counted frame starts before the
/// duration ends, and the frame at the count starts at or after its end (where
/// that start time fits in a `u64`).
pub proof fn lemma_frame_time_of_count(f: Fps, d: Time)
    requires
        f.num_spec() > 0,
        f.den_spec() > 0,
        (d.0 * f.num_spec() + 1_000_000_000 * f.den_spec() - 1) / (1_000_000_000
            * f.den_spec()) <= u64::MAX,
    ensures
        frame_count_spec(f, d) > 0 ==> frame_time_spec(f, (frame_count_spec(f, d) - 1) as u64)
            < d.0,
        (frame_count_spec(f, d) * 1_000_000_000 * f.den_spec()) / (f.num_spec() as int)
            <= u64::MAX ==> frame_time_spec(f, frame_count_spec(f, d)) >= d.0,
{
    let c = frame_count_spec(f, d);
    if c > 0 {
        lemma_frame_count_covers(f, d, (c - 1) as u64);
    }
    lemma_frame_count_covers(f, d, c);
}


} // verus!
