//! Character-level helpers shared by the parsers: whitespace, trimming,
//! decimal rendering, and the Unicode segmentation and width facts the
//! terminal model relies on.
use unicode_segmentation::UnicodeSegmentation;
use unicode_width::UnicodeWidthStr;
use crate::time::pow10;
use vstd::prelude::*;

verus! {

/// The Unicode `White_Space` property, as `char::is_whitespace` defines it.
pub open spec fn is_ws(c: char) -> bool {
    ||| c == ' '
    ||| ('\t' <= c && c <= '\r')
    ||| c == '\u{85}'
    ||| c == '\u{a0}'
    ||| c == '\u{1680}'
    ||| ('\u{2000}' <= c && c <= '\u{200a}')
    ||| c == '\u{2028}'
    ||| c == '\u{2029}'
    ||| c == '\u{202f}'
    ||| c == '\u{205f}'
    ||| c == '\u{3000}'
}

pub fn is_whitespace(c: char) -> (r: bool)
    ensures
        r == is_ws(c),
{
    c == ' ' || ('\t' <= c && c <= '\r') || c == '\u{85}' || c == '\u{a0}' || c == '\u{1680}'
        || ('\u{2000}' <= c && c <= '\u{200a}') || c == '\u{2028}' || c == '\u{2029}' || c
        == '\u{202f}' || c == '\u{205f}' || c == '\u{3000}'
}

/// Index of the first non-whitespace character at or after `i` (or `s.len()`).
pub open spec fn skip_ws_from(s: Seq<char>, i: int) -> int
    decreases s.len() - i,
{
    if i < 0 || i >= s.len() {
        s.len() as int
    } else if is_ws(s[i]) {
        skip_ws_from(s, i + 1)
    } else {
        i
    }
}

/// End (exclusive) of `s.subrange(0, j)` once trailing whitespace is dropped.
pub open spec fn trim_end_at(s: Seq<char>, j: int) -> int
    decreases j,
{
    if j <= 0 || j > s.len() {
        0
    } else if is_ws(s[j - 1]) {
        trim_end_at(s, j - 1)
    } else {
        j
    }
}

/// `str::trim`: leading and trailing whitespace removed.
pub open spec fn trimmed(s: Seq<char>) -> Seq<char> {
    let lo = skip_ws_from(s, 0);
    let hi = trim_end_at(s, s.len() as int);
    if hi <= lo {
        Seq::empty()
    } else {
        s.subrange(lo, hi)
    }
}

pub proof fn lemma_skip_ws_bounds(s: Seq<char>, i: int)
    requires
        0 <= i <= s.len(),
    ensures
        i <= skip_ws_from(s, i) <= s.len(),
        forall|j: int| i <= j < skip_ws_from(s, i) ==> is_ws(#[trigger] s[j]),
        skip_ws_from(s, i) < s.len() ==> !is_ws(s[skip_ws_from(s, i)]),
    decreases s.len() - i,
{
    if i < s.len() && is_ws(s[i]) {
        lemma_skip_ws_bounds(s, i + 1);
    }
}

pub proof fn lemma_trim_end_bounds(s: Seq<char>, j: int)
    requires
        0 <= j <= s.len(),
    ensures
        0 <= trim_end_at(s, j) <= j,
        forall|k: int| trim_end_at(s, j) <= k < j ==> is_ws(#[trigger] s[k]),
        trim_end_at(s, j) > 0 ==> !is_ws(s[trim_end_at(s, j) - 1]),
    decreases j,
{
    if j > 0 && is_ws(s[j - 1]) {
        lemma_trim_end_bounds(s, j - 1);
    }
}

/// Trimming twice is trimming once.
pub proof fn lemma_trimmed_idempotent(s: Seq<char>)
    ensures
        trimmed(trimmed(s)) == trimmed(s),
{
    lemma_skip_ws_bounds(s, 0);
    lemma_trim_end_bounds(s, s.len() as int);
    let t = trimmed(s);
    let lo = skip_ws_from(s, 0);
    let hi = trim_end_at(s, s.len() as int);
    if hi > lo {
        assert(t[0] == s[lo]);
        assert(skip_ws_from(t, 0) == 0);
        assert(t[t.len() - 1] == s[hi - 1]);
        assert(trim_end_at(t, t.len() as int) == t.len());
    }
    assert(trimmed(t) =~= t);
}

/// The characters of `s`, one per element.
pub fn str_chars(s: &str) -> (v: Vec<char>)
    ensures
        v@ == s@,
{
    let mut v: Vec<char> = Vec::new();
    proof {
        broadcast use vstd::string::group_string_axioms;
    }
    for c in it: s.chars()
        invariant
            v@ == s@.take(it.index() as int),
            it.seq() == s@,
    {
        v.push(c);
        proof {
            assert(v@ =~= s@.take(it.index() as int + 1));
        }
    }
    proof {
        assert(s@.take(s@.len() as int) =~= s@);
    }
    v
}

/// The display width in columns `unicode_width` assigns to the text `s`, by the
/// rules of Unicode Standard Annex #11 and the crate's own sequence rules.
pub uninterp spec fn display_width(s: Seq<char>) -> usize;

/// `unicode_width::UnicodeWidthStr::width`. Claimed: the result is a function of
/// the text alone, named `display_width`, and, as the crate documents, text made
/// only of printable ASCII characters (space to `~`) is one column per character.
/// Nothing further is stated of its value.
#[verifier::external_body]
pub(crate) fn str_width(s: &str) -> (w: usize)
    ensures
        w == display_width(s@),
        (forall|i: int| 0 <= i < s@.len() ==> ' ' <= #[trigger] s@[i] <= '~') ==> w == s@.len(),
{
    s.width()
}

/// The extended grapheme clusters `unicode_segmentation` splits `s` into, in order.
pub uninterp spec fn grapheme_clusters(s: Seq<char>) -> Seq<Seq<char>>;

/// `unicode_segmentation::UnicodeSegmentation::graphemes(s, true)`, each cluster
/// copied into a `String`. Claimed: the sequence of clusters is a function of the
/// text alone, named `grapheme_clusters`, and, as a segmentation of the text,
/// every cluster is non-empty and the clusters in order join back to the text.
#[verifier::external_body]
pub(crate) fn graphemes(s: &str) -> (r: Vec<String>)
    ensures
        r@.len() == grapheme_clusters(s@).len(),
        forall|i: int| 0 <= i < r@.len() ==> #[trigger] r@[i]@ == grapheme_clusters(s@)[i],
        forall|i: int| 0 <= i < r@.len() ==> #[trigger] r@[i]@.len() > 0,
        r@.map_values(|g: String| g@).flatten() == s@,
{
    s.graphemes(true).map(String::from).collect()
}

/// Collects characters into a `String` (std's `FromIterator<&char>` for `String`).
#[verifier::external_body]
pub(crate) fn string_from_chars(v: &[char]) -> (s: String)
    ensures
        s@ == v@,
{
    v.iter().collect()
}

/// Returns the bounds `(lo, hi)` with `trimmed(s) == s.subrange(lo, hi)`.
pub fn trim_bounds(s: &[char]) -> (r: (usize, usize))
    ensures
        r.0 <= r.1 <= s@.len(),
        trimmed(s@) == s@.subrange(r.0 as int, r.1 as int),
{
    let n = s.len();
    let mut lo: usize = 0;
    while lo < n && is_whitespace(s[lo])
        invariant
            lo <= n == s@.len(),
            skip_ws_from(s@, 0) == skip_ws_from(s@, lo as int),
        decreases n - lo,
    {
        lo = lo + 1;
    }
    let mut hi: usize = n;
    while hi > 0 && is_whitespace(s[hi - 1])
        invariant
            hi <= n == s@.len(),
            trim_end_at(s@, n as int) == trim_end_at(s@, hi as int),
        decreases hi,
    {
        hi = hi - 1;
    }
    proof {
        lemma_skip_ws_bounds(s@, 0);
        lemma_trim_end_bounds(s@, n as int);
    }
    if hi <= lo {
        proof {
            assert(s@.subrange(lo as int, lo as int) =~= Seq::<char>::empty());
        }
        (lo, lo)
    } else {
        (lo, hi)
    }
}

/// `str::trim` over a character slice.
pub fn trim_chars(s: &[char]) -> (r: Vec<char>)
    ensures
        r@ == trimmed(s@),
{
    let (lo, hi) = trim_bounds(s);
    slice_range(s, lo, hi)
}

/// A copy of `s[lo..hi]`.
pub fn slice_range(s: &[char], lo: usize, hi: usize) -> (r: Vec<char>)
    requires
        lo <= hi <= s@.len(),
    ensures
        r@ == s@.subrange(lo as int, hi as int),
{
    let mut r: Vec<char> = Vec::new();
    let mut i = lo;
    while i < hi
        invariant
            lo <= i <= hi <= s@.len(),
            r@ == s@.subrange(lo as int, i as int),
        decreases hi - i,
    {
        r.push(s[i]);
        i = i + 1;
        proof {
            assert(r@ =~= s@.subrange(lo as int, i as int));
        }
    }
    r
}

} // verus!

verus! {

/// `a == b` on string slices.
pub fn str_eq(a: &str, b: &str) -> (r: bool)
    ensures
        r == (a@ == b@),
{
    let x = str_chars(a);
    let y = str_chars(b);
    chars_eq(x.as_slice(), y.as_slice())
}

/// `a == b` on character slices.
pub fn chars_eq(x: &[char], y: &[char]) -> (r: bool)
    ensures
        r == (x@ == y@),
{
    if x.len() != y.len() {
        return false;
    }
    let mut i: usize = 0;
    while i < x.len()
        invariant
            x@.len() == y@.len(),
            i <= x@.len(),
            forall|k: int| 0 <= k < i ==> x@[k] == y@[k],
        decreases x@.len() - i,
    {
        if x[i] != y[i] {
            return false;
        }
        i = i + 1;
    }
    proof {
        assert(x@ =~= y@);
    }
    true
}

} // verus!

verus! {

pub open spec fn digit_char(d: nat) -> char {
    ('0' as u32 + d) as char
}

/// The decimal representation of `n`, without leading zeros.
pub open spec fn decimal(n: nat) -> Seq<char>
    decreases n,
{
    if n < 10 {
        seq![digit_char(n)]
    } else {
        decimal(n / 10).push(digit_char(n % 10))
    }
}

fn push_decimal(n: u64, out: &mut Vec<char>)
    ensures
        final(out)@ == old(out)@ + decimal(n as nat),
    decreases n,
{
    if n >= 10 {
        push_decimal(n / 10, out);
    }
    let d = (n % 10) as u32;
    let c = char_from_digit(d);
    out.push(c);
    proof {
        if n >= 10 {
            assert(final(out)@ =~= old(out)@ + decimal(n as nat));
        } else {
            assert(final(out)@ =~= old(out)@ + decimal(n as nat));
        }
    }
}

fn char_from_digit(d: u32) -> (c: char)
    requires
        d < 10,
    ensures
        c == digit_char(d as nat),
{
    if d == 0 { '0' }
    else if d == 1 { '1' }
    else if d == 2 { '2' }
    else if d == 3 { '3' }
    else if d == 4 { '4' }
    else if d == 5 { '5' }
    else if d == 6 { '6' }
    else if d == 7 { '7' }
    else if d == 8 { '8' }
    else { '9' }
}

/// `n.to_string()` for an unsigned integer.
pub fn decimal_string(n: u64) -> (s: String)
    ensures
        s@ == decimal(n as nat),
{
    let mut v: Vec<char> = Vec::new();
    push_decimal(n, &mut v);
    proof {
        assert(v@ =~= decimal(n as nat));
    }
    string_from_chars(v.as_slice())
}

/// Appends `n` in decimal to `s`.
pub fn append_decimal(s: &mut String, n: u64)
    ensures
        final(s)@ == old(s)@ + decimal(n as nat),
{
    let d = decimal_string(n);
    s.append(d.as_str());
}

/// The decimal representation of a signed integer: a `-` before the magnitude
/// when negative.
pub open spec fn signed_decimal(i: int) -> Seq<char> {
    if i < 0 {
        seq!['-'] + decimal((-i) as nat)
    } else {
        decimal(i as nat)
    }
}

/// Appends `i` in decimal to `s`.
pub fn append_signed(s: &mut String, i: i32)
    ensures
        final(s)@ == old(s)@ + signed_decimal(i as int),
{
    if i < 0 {
        proof {
            reveal_strlit("-");
        }
        s.append("-");
        let m: u64 = if i == i32::MIN {
            2147483648
        } else {
            (-i) as u64
        };
        let ghost s1 = s@;
        append_decimal(s, m);
        proof {
            assert(s@ =~= old(s)@ + signed_decimal(i as int));
        }
    } else {
        append_decimal(s, i as u64);
    }
}

/// Appends `i` in decimal to `s`.
pub fn append_i64(s: &mut String, i: i64)
    ensures
        final(s)@ == old(s)@ + signed_decimal(i as int),
{
    if i < 0 {
        proof {
            reveal_strlit("-");
        }
        s.append("-");
        let m: u64 = if i == i64::MIN {
            9223372036854775808
        } else {
            (-i) as u64
        };
        append_decimal(s, m);
        proof {
            assert(s@ =~= old(s)@ + signed_decimal(i as int));
        }
    } else {
        append_decimal(s, i as u64);
    }
}

/// Whether `needle` occurs in `hay`.
pub open spec fn contains_seq(hay: Seq<char>, needle: Seq<char>) -> bool {
    exists|i: int| 0 <= i && i + needle.len() <= hay.len() && #[trigger] hay.subrange(i, i + needle.len()) == needle
}

fn matches_at(h: &Vec<char>, n: &Vec<char>, i: usize) -> (r: bool)
    requires
        i + n@.len() <= h@.len(),
    ensures
        r == (h@.subrange(i as int, i + n@.len()) == n@),
{
    let mut j: usize = 0;
    let nl = n.len();
    let hl = h.len();
    while j < nl && h[i + j] == n[j]
        invariant
            nl == n@.len(),
            hl == h@.len(),
            i + n@.len() <= h@.len(),
            j <= n@.len(),
            forall|t: int| 0 <= t < j ==> h@[i + t] == n@[t],
        decreases n@.len() - j,
    {
        j = j + 1;
    }
    if j == nl {
        proof {
            assert(h@.subrange(i as int, i + n@.len()) =~= n@);
        }
        true
    } else {
        proof {
            assert(h@.subrange(i as int, i + n@.len())[j as int] != n@[j as int]);
        }
        false
    }
}

/// `hay.contains(needle)` for string slices.
pub fn contains_str(hay: &str, needle: &str) -> (r: bool)
    ensures
        r == contains_seq(hay@, needle@),
{
    let h = str_chars(hay);
    let n = str_chars(needle);
    if n.len() > h.len() {
        return false;
    }
    let last = h.len() - n.len();
    let mut i: usize = 0;
    while i < last
        invariant
            i <= last,
            last + n@.len() == h@.len(),
            h@ == hay@,
            n@ == needle@,
            forall|k: int| 0 <= k < i ==> #[trigger] h@.subrange(k, k + n@.len()) != n@,
        decreases last - i,
    {
        if matches_at(&h, &n, i) {
            return true;
        }
        i = i + 1;
    }
    if matches_at(&h, &n, last) {
        return true;
    }
    proof {
        assert forall|k: int| 0 <= k && k + needle@.len() <= hay@.len() implies #[trigger] hay@.subrange(k, k + needle@.len()) != needle@ by {
            if k < last {
            }
        }
    }
    false
}

/// Every character of a decimal representation is an ASCII digit.
pub proof fn lemma_decimal_digits(n: nat)
    ensures
        decimal(n).len() >= 1,
        forall|i: int| 0 <= i < decimal(n).len() ==> '0' <= #[trigger] decimal(n)[i] <= '9',
    decreases n,
{
    if n >= 10 {
        lemma_decimal_digits(n / 10);
        assert forall|i: int| 0 <= i < decimal(n).len() implies '0' <= #[trigger] decimal(n)[i]
            <= '9' by {
            if i < decimal(n / 10).len() {
                assert(decimal(n)[i] == decimal(n / 10)[i]);
            }
        }
    }
}

/// A number below `10^k` has at most `k` decimal digits.
pub proof fn lemma_decimal_len(n: nat, k: nat)
    requires
        k >= 1,
        n < pow10(k),
    ensures
        decimal(n).len() <= k,
    decreases n,
{
    if n >= 10 {
        reveal_with_fuel(pow10, 2);
        if k == 1 {
            assert(pow10(1) == 10);
        } else {
            assert(pow10(k) == 10 * pow10((k - 1) as nat));
            assert(n / 10 < pow10((k - 1) as nat));
            lemma_decimal_len(n / 10, (k - 1) as nat);
        }
    }
}

} // verus!
