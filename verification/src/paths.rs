//! Unix path text: joining a path onto another, and a path's final component.
use crate::text::{str_chars, string_from_chars};
use vstd::prelude::*;

verus! {

/// `base` joined with `rel`: `rel` itself when it is absolute, else `rel` after
/// `base` with one `/` between them unless `base` is empty or already ends in `/`.
pub open spec fn joined(base: Seq<char>, rel: Seq<char>) -> Seq<char> {
    if rel.len() > 0 && rel[0] == '/' {
        rel
    } else if base.len() > 0 && base.last() != '/' {
        base + seq!['/'] + rel
    } else {
        base + rel
    }
}

/// Joins `rel` onto `base`.
pub fn join_path(base: &str, rel: &str) -> (r: String)
    ensures
        r@ == joined(base@, rel@),
{
    let b = str_chars(base);
    let r = str_chars(rel);
    let mut out: Vec<char> = Vec::new();
    if r.len() > 0 && r[0] == '/' {
        return String::from_str(rel);
    }
    let mut i: usize = 0;
    while i < b.len()
        invariant
            i <= b@.len(),
            out@ == b@.subrange(0, i as int),
        decreases b@.len() - i,
    {
        out.push(b[i]);
        i = i + 1;
        proof {
            assert(out@ =~= b@.subrange(0, i as int));
        }
    }
    if b.len() > 0 && b[b.len() - 1] != '/' {
        out.push('/');
    }
    let ghost mid = out@;
    let mut j: usize = 0;
    while j < r.len()
        invariant
            j <= r@.len(),
            out@ == mid + r@.subrange(0, j as int),
        decreases r@.len() - j,
    {
        out.push(r[j]);
        j = j + 1;
        proof {
            assert(out@ =~= mid + r@.subrange(0, j as int));
        }
    }
    proof {
        assert(b@.subrange(0, b@.len() as int) =~= b@);
        assert(r@.subrange(0, r@.len() as int) =~= r@);
        assert(out@ =~= joined(base@, rel@));
    }
    string_from_chars(out.as_slice())
}

/// The start of the final `/`-separated segment of `p[..end]`.
pub open spec fn segment_start(p: Seq<char>, end: int) -> int
    decreases end,
{
    if end <= 0 {
        0
    } else if p[end - 1] == '/' {
        end
    } else {
        segment_start(p, end - 1)
    }
}

/// The end of `p[..end]` once trailing `/` and `/.` pieces are dropped.
pub open spec fn trimmed_end(p: Seq<char>, end: int) -> int
    decreases end,
{
    if end <= 0 {
        0
    } else if p[end - 1] == '/' {
        trimmed_end(p, end - 1)
    } else if p[end - 1] == '.' && end > 1 && p[end - 2] == '/' {
        trimmed_end(p, end - 1)
    } else {
        end
    }
}

/// The final component of a path: its last segment once trailing separators and
/// `.` segments are dropped, or nothing when that segment is empty, `.` or `..`.
pub open spec fn file_name_of(p: Seq<char>) -> Option<Seq<char>> {
    let e = trimmed_end(p, p.len() as int);
    let s = segment_start(p, e);
    let name = p.subrange(s, e);
    if name.len() == 0 || name == seq!['.'] || name == seq!['.', '.'] {
        None
    } else {
        Some(name)
    }
}

proof fn lemma_trimmed_end_bounds(p: Seq<char>, end: int)
    requires
        0 <= end <= p.len(),
    ensures
        0 <= trimmed_end(p, end) <= end,
    decreases end,
{
    if end > 0 {
        lemma_trimmed_end_bounds(p, end - 1);
    }
}

proof fn lemma_segment_start_bounds(p: Seq<char>, end: int)
    requires
        0 <= end <= p.len(),
    ensures
        0 <= segment_start(p, end) <= end,
    decreases end,
{
    if end > 0 {
        lemma_segment_start_bounds(p, end - 1);
    }
}

/// The final component of `path`, if there is one.
pub fn file_name(path: &str) -> (r: Option<String>)
    ensures
        match r {
            Some(s) => file_name_of(path@) == Some(s@),
            None => file_name_of(path@) is None,
        },
{
    let p = str_chars(path);
    let mut e: usize = p.len();
    proof {
        lemma_trimmed_end_bounds(p@, p@.len() as int);
    }
    while e > 0 && (p[e - 1] == '/' || (p[e - 1] == '.' && e > 1 && p[e - 2] == '/'))
        invariant
            e <= p@.len(),
            trimmed_end(p@, e as int) == trimmed_end(p@, p@.len() as int),
        decreases e,
    {
        e = e - 1;
    }
    let mut s: usize = e;
    proof {
        lemma_segment_start_bounds(p@, e as int);
    }
    while s > 0 && p[s - 1] != '/'
        invariant
            s <= e <= p@.len(),
            segment_start(p@, s as int) == segment_start(p@, e as int),
        decreases s,
    {
        s = s - 1;
    }
    let mut name: Vec<char> = Vec::new();
    let mut k: usize = s;
    while k < e
        invariant
            s <= k <= e <= p@.len(),
            name@ == p@.subrange(s as int, k as int),
        decreases e - k,
    {
        name.push(p[k]);
        k = k + 1;
        proof {
            assert(name@ =~= p@.subrange(s as int, k as int));
        }
    }
    let n = name.len();
    if n == 0 || (n == 1 && name[0] == '.') || (n == 2 && name[0] == '.' && name[1] == '.') {
        proof {
            if n == 1 {
                assert(name@ =~= seq!['.']);
            }
            if n == 2 {
                assert(name@ =~= seq!['.', '.']);
            }
        }
        None
    } else {
        proof {
            if name@ =~= seq!['.'] {
                assert(n == 1 && name@[0] == '.');
            }
            if name@ =~= seq!['.', '.'] {
                assert(n == 2 && name@[0] == '.' && name@[1] == '.');
            }
        }
        Some(string_from_chars(name.as_slice()))
    }
}

/// The end of `p[..end]` once trailing `/` are dropped.
pub open spec fn strip_slashes(p: Seq<char>, end: int) -> int
    decreases end,
{
    if end <= 0 {
        0
    } else if p[end - 1] == '/' {
        strip_slashes(p, end - 1)
    } else {
        end
    }
}

/// The parent of a path: everything before its final component (without the
/// separators in between, but keeping a lone root `/`), or nothing when the path
/// has no final component.
pub open spec fn parent_of(p: Seq<char>) -> Option<Seq<char>> {
    let e = trimmed_end(p, p.len() as int);
    let s = segment_start(p, e);
    if e == s {
        None
    } else {
        let q = strip_slashes(p, s);
        if q == 0 && s > 0 {
            Some(seq!['/'])
        } else {
            Some(p.subrange(0, q))
        }
    }
}

proof fn lemma_strip_slashes_bounds(p: Seq<char>, end: int)
    requires
        0 <= end <= p.len(),
    ensures
        0 <= strip_slashes(p, end) <= end,
    decreases end,
{
    if end > 0 {
        lemma_strip_slashes_bounds(p, end - 1);
    }
}

/// The directory a file's includes are taken relative to: its parent, or `.`
/// when it has none.
pub open spec fn base_dir_of(p: Seq<char>) -> Seq<char> {
    match parent_of(p) {
        Some(d) => d,
        None => "."@,
    }
}

/// The directory a file's relative includes are taken relative to.
pub fn base_dir(path: &str) -> (d: String)
    ensures
        d@ == base_dir_of(path@),
{
    proof {
        reveal_strlit(".");
        reveal_strlit("/");
    }
    let p = str_chars(path);
    let mut e: usize = p.len();
    proof {
        lemma_trimmed_end_bounds(p@, p@.len() as int);
    }
    while e > 0 && (p[e - 1] == '/' || (p[e - 1] == '.' && e > 1 && p[e - 2] == '/'))
        invariant
            e <= p@.len(),
            trimmed_end(p@, e as int) == trimmed_end(p@, p@.len() as int),
        decreases e,
    {
        e = e - 1;
    }
    let mut s: usize = e;
    proof {
        lemma_segment_start_bounds(p@, e as int);
    }
    while s > 0 && p[s - 1] != '/'
        invariant
            s <= e <= p@.len(),
            segment_start(p@, s as int) == segment_start(p@, e as int),
        decreases s,
    {
        s = s - 1;
    }
    if e == s {
        return String::from_str(".");
    }
    let mut q: usize = s;
    proof {
        lemma_strip_slashes_bounds(p@, s as int);
    }
    while q > 0 && p[q - 1] == '/'
        invariant
            q <= s <= p@.len(),
            strip_slashes(p@, q as int) == strip_slashes(p@, s as int),
        decreases q,
    {
        q = q - 1;
    }
    if q == 0 && s > 0 {
        return String::from_str("/");
    }
    let mut out: Vec<char> = Vec::new();
    let mut k: usize = 0;
    while k < q
        invariant
            k <= q <= p@.len(),
            out@ == p@.subrange(0, k as int),
        decreases q - k,
    {
        out.push(p[k]);
        k = k + 1;
        proof {
            assert(out@ =~= p@.subrange(0, k as int));
        }
    }
    string_from_chars(out.as_slice())
}

} // verus!
